//! Requests through `api::dispatch`: login, logout, access rights, pages.

use rdplatform::api::{dispatch, dispatch_at, is_write_request, route, FormNumbers, PageTexts, Route};
use rdplatform::auth::{destroy_session, force_expire_session, is_locked_out_at, LoginFailures, SessionTable};
use rdplatform::http::HttpRequest;
use rdplatform::model::{FloatBits, Role};
use rdplatform::page::ProjectFigures;
use rdplatform::store::Store;

fn login_request(username: &str, password: &str) -> HttpRequest {
    HttpRequest {
        method: "POST".into(),
        path: "/login".into(),
        query: vec![],
        body: vec![
            ("username".into(), username.into()),
            ("password".into(), password.into()),
        ],
        cookie: String::new(),
    }
}

fn get_request(path: &str, cookie: &str) -> HttpRequest {
    HttpRequest {
        method: "GET".into(),
        path: path.into(),
        query: vec![],
        body: vec![],
        cookie: cookie.into(),
    }
}

fn post_request(path: &str, cookie: &str, body: &[(&str, &str)]) -> HttpRequest {
    HttpRequest {
        method: "POST".into(),
        path: path.into(),
        query: vec![],
        body: body.iter().map(|(k, v)| (k.to_string(), v.to_string())).collect(),
        cookie: cookie.into(),
    }
}

fn extract_token(resp: &str) -> Option<String> {
    for line in resp.split("\r\n") {
        if line.to_lowercase().starts_with("set-cookie:") {
            let value = line.splitn(2, ':').nth(1).unwrap_or("").trim();
            for part in value.split(';') {
                let part = part.trim();
                if let Some((k, v)) = part.split_once('=') {
                    if k.trim() == "token" {
                        return Some(v.trim().to_string());
                    }
                }
            }
        }
    }
    None
}

fn test_store() -> Store {
    let mut s = Store::new();
    s.path = "data/test_http.json".into();
    s.seed();
    s
}

fn bits(x: f64) -> FloatBits {
    FloatBits { bits: x.to_bits() }
}

/// Numbers and texts for the pages; the numbers are printed as the pages print them.
fn texts_for(store: &Store) -> PageTexts {
    let fig = ProjectFigures {
        progress: "0.0".into(),
        cost_class: "ok".into(),
        cost: "0.00".into(),
        budget: "0.00".into(),
        deviation_class: "ok".into(),
        deviation: "+0.0".into(),
    };
    PageTexts {
        budgets: store.projects.iter().map(|p| format!("{:.2}", f64::from_bits(p.budget.bits))).collect(),
        estimates: store.tasks.iter().map(|t| format!("{:.1}", f64::from_bits(t.estimate_hours.bits))).collect(),
        rates: store.members.iter().map(|m| format!("{:.2}", f64::from_bits(m.rate.bits))).collect(),
        hours: store.timesheets.iter().map(|t| format!("{:.1}", f64::from_bits(t.hours.bits))).collect(),
        warnings: store.tasks.iter().map(|_| None).collect(),
        figures: store.projects.iter().map(|_| fig.clone()).collect(),
        load_hours: store.member_load_groups().iter().map(|_| "0.0".to_string()).collect(),
    }
}

fn numbers() -> FormNumbers {
    FormNumbers { budget: bits(0.0), rate: bits(100.0), estimate: bits(0.0), hours: bits(0.0) }
}

fn send(req: &HttpRequest, store: &mut Store, sessions: &mut SessionTable) -> String {
    let texts = texts_for(store);
    dispatch(req, store, sessions, &mut LoginFailures::new(), &numbers(), &texts).0
}

fn login_cookie(user: &str, password: &str, store: &mut Store, sessions: &mut SessionTable) -> (String, String) {
    let resp = send(&login_request(user, password), store, sessions);
    let token = extract_token(&resp).unwrap();
    let cookie = format!("token={}", token);
    (token, cookie)
}

// ---- login ----

#[test]
fn login_success_returns_redirect_with_cookie() {
    let mut store = test_store();
    let mut sessions = SessionTable::new();
    let resp = send(&login_request("pm1", "pm123"), &mut store, &mut sessions);

    assert!(resp.starts_with("HTTP/1.1 302"), "应返回 302 重定向");
    assert!(resp.contains("Location: /"), "应重定向到首页");

    let token = extract_token(&resp);
    assert!(token.is_some(), "响应应包含 Set-Cookie token");
    assert!(!token.unwrap().is_empty(), "token 不能为空");
}

#[test]
fn login_success_dev_account() {
    let mut store = test_store();
    let mut sessions = SessionTable::new();
    let resp = send(&login_request("dev1", "dv123"), &mut store, &mut sessions);

    assert!(resp.starts_with("HTTP/1.1 302"));
    assert!(extract_token(&resp).is_some());
}

#[test]
fn login_success_qa_account() {
    let mut store = test_store();
    let mut sessions = SessionTable::new();
    let resp = send(&login_request("qa1", "qa123"), &mut store, &mut sessions);

    assert!(resp.starts_with("HTTP/1.1 302"));
    assert!(extract_token(&resp).is_some());
}

#[test]
fn login_wrong_password_returns_error_page() {
    let mut store = test_store();
    let mut sessions = SessionTable::new();
    let resp = send(&login_request("pm1", "wrong_password"), &mut store, &mut sessions);

    assert!(resp.starts_with("HTTP/1.1 200"), "应返回 200");
    assert!(!resp.contains("Set-Cookie:"), "失败不应下发 Cookie");
    assert!(resp.contains("错误"), "应包含错误提示");
}

#[test]
fn login_unknown_user_returns_error() {
    let mut store = test_store();
    let mut sessions = SessionTable::new();
    let resp = send(&login_request("nobody", "whatever"), &mut store, &mut sessions);

    assert!(resp.starts_with("HTTP/1.1 200"));
    assert!(!resp.contains("Set-Cookie:"));
    assert!(resp.contains("错误"));
}

#[test]
fn login_empty_credentials_returns_error() {
    let mut store = test_store();
    let mut sessions = SessionTable::new();
    let resp = send(&login_request("", ""), &mut store, &mut sessions);

    assert!(resp.starts_with("HTTP/1.1 200"));
    assert!(!resp.contains("Set-Cookie:"));
}

#[test]
fn login_page_is_served() {
    let mut store = test_store();
    let mut sessions = SessionTable::new();
    let resp = send(&get_request("/login", ""), &mut store, &mut sessions);
    assert!(resp.starts_with("HTTP/1.1 200 OK"));
    assert!(resp.contains("action=\"/login\""));
}

// ---- without a session ----

#[test]
fn access_without_login_redirects_to_login() {
    let mut store = test_store();
    let mut sessions = SessionTable::new();
    let resp = send(&get_request("/", ""), &mut store, &mut sessions);

    assert!(resp.starts_with("HTTP/1.1 302"), "应重定向");
    assert!(resp.contains("Location: /login"), "应重定向到登录页");
}

#[test]
fn access_dashboard_without_login_redirects() {
    let mut store = test_store();
    let mut sessions = SessionTable::new();
    let resp = send(&get_request("/dashboard", ""), &mut store, &mut sessions);
    assert!(resp.contains("Location: /login"));
}

#[test]
fn access_tasks_without_login_redirects() {
    let mut store = test_store();
    let mut sessions = SessionTable::new();
    let resp = send(&get_request("/tasks", ""), &mut store, &mut sessions);
    assert!(resp.contains("Location: /login"));
}

// ---- access rights ----

#[test]
fn dev_access_dashboard_gets_403() {
    let mut store = test_store();
    let mut sessions = SessionTable::new();
    let (token, cookie) = login_cookie("dev1", "dv123", &mut store, &mut sessions);

    let resp = send(&get_request("/dashboard", &cookie), &mut store, &mut sessions);
    assert!(resp.starts_with("HTTP/1.1 403"), "dev 访问仪表盘应返回 403");
    assert!(resp.contains("权限不足"), "应提示权限不足");

    destroy_session(&mut sessions, &token);
}

#[test]
fn qa_access_dashboard_gets_403() {
    let mut store = test_store();
    let mut sessions = SessionTable::new();
    let (token, cookie) = login_cookie("qa1", "qa123", &mut store, &mut sessions);

    let resp = send(&get_request("/dashboard", &cookie), &mut store, &mut sessions);
    assert!(resp.starts_with("HTTP/1.1 403"));

    destroy_session(&mut sessions, &token);
}

#[test]
fn pm_access_dashboard_gets_200() {
    let mut store = test_store();
    let mut sessions = SessionTable::new();
    let (token, cookie) = login_cookie("pm1", "pm123", &mut store, &mut sessions);

    let resp = send(&get_request("/dashboard", &cookie), &mut store, &mut sessions);
    assert!(resp.starts_with("HTTP/1.1 200"), "PM 访问仪表盘应返回 200");

    destroy_session(&mut sessions, &token);
}

#[test]
fn dev_access_projects_gets_403() {
    let mut store = test_store();
    let mut sessions = SessionTable::new();
    let (token, cookie) = login_cookie("dev1", "dv123", &mut store, &mut sessions);

    let resp = send(&get_request("/projects", &cookie), &mut store, &mut sessions);
    assert!(resp.starts_with("HTTP/1.1 403"));

    destroy_session(&mut sessions, &token);
}

#[test]
fn pm_access_projects_gets_200() {
    let mut store = test_store();
    let mut sessions = SessionTable::new();
    let (token, cookie) = login_cookie("pm1", "pm123", &mut store, &mut sessions);

    let resp = send(&get_request("/projects", &cookie), &mut store, &mut sessions);
    assert!(resp.starts_with("HTTP/1.1 200"));
    assert!(resp.contains("100000.00"));

    destroy_session(&mut sessions, &token);
}

#[test]
fn dev_access_tasks_gets_200() {
    let mut store = test_store();
    let mut sessions = SessionTable::new();
    let (token, cookie) = login_cookie("dev1", "dv123", &mut store, &mut sessions);

    let resp = send(&get_request("/tasks", &cookie), &mut store, &mut sessions);
    assert!(resp.starts_with("HTTP/1.1 200"), "全员路由 /tasks 应返回 200");

    destroy_session(&mut sessions, &token);
}

#[test]
fn dev_access_my_page_gets_200() {
    let mut store = test_store();
    let mut sessions = SessionTable::new();
    let (token, cookie) = login_cookie("dev1", "dv123", &mut store, &mut sessions);

    let resp = send(&get_request("/my", &cookie), &mut store, &mut sessions);
    assert!(resp.starts_with("HTTP/1.1 200"));

    destroy_session(&mut sessions, &token);
}

#[test]
fn qa_access_timesheet_gets_200() {
    let mut store = test_store();
    let mut sessions = SessionTable::new();
    let (token, cookie) = login_cookie("qa1", "qa123", &mut store, &mut sessions);

    let resp = send(&get_request("/timesheet", &cookie), &mut store, &mut sessions);
    assert!(resp.starts_with("HTTP/1.1 200"));

    destroy_session(&mut sessions, &token);
}

#[test]
fn logged_in_access_home_gets_200() {
    let mut store = test_store();
    let mut sessions = SessionTable::new();
    let (token, cookie) = login_cookie("pm1", "pm123", &mut store, &mut sessions);

    let resp = send(&get_request("/", &cookie), &mut store, &mut sessions);
    assert!(resp.starts_with("HTTP/1.1 200"));

    destroy_session(&mut sessions, &token);
}

#[test]
fn logout_redirects_to_login() {
    let mut store = test_store();
    let mut sessions = SessionTable::new();
    let (_token, cookie) = login_cookie("pm1", "pm123", &mut store, &mut sessions);

    let resp = send(&get_request("/logout", &cookie), &mut store, &mut sessions);
    assert!(resp.starts_with("HTTP/1.1 302"), "登出应重定向");
    assert!(resp.contains("Location: /login"), "应重定向到登录页");

    let resp2 = send(&get_request("/", &cookie), &mut store, &mut sessions);
    assert!(resp2.contains("Location: /login"), "登出后访问应重定向到登录");
}

#[test]
fn unknown_path_returns_404() {
    let mut store = test_store();
    let mut sessions = SessionTable::new();
    let (token, cookie) = login_cookie("pm1", "pm123", &mut store, &mut sessions);

    let resp = send(&get_request("/nonexistent", &cookie), &mut store, &mut sessions);
    assert!(resp.starts_with("HTTP/1.1 404"), "未知路由应返回 404");

    destroy_session(&mut sessions, &token);
}

#[test]
fn expired_session_redirects_to_login() {
    let mut store = test_store();
    let mut sessions = SessionTable::new();
    let (token, cookie) = login_cookie("pm1", "pm123", &mut store, &mut sessions);

    let resp = send(&get_request("/", &cookie), &mut store, &mut sessions);
    assert!(resp.starts_with("HTTP/1.1 200"));

    force_expire_session(&mut sessions, &token);

    let resp = send(&get_request("/", &cookie), &mut store, &mut sessions);
    assert!(resp.contains("Location: /login"), "过期会话应重定向到登录");

    destroy_session(&mut sessions, &token);
}

// ---- write actions ----

#[test]
fn pm_creates_project_and_member() {
    let mut store = test_store();
    let mut sessions = SessionTable::new();
    let (_token, cookie) = login_cookie("pm1", "pm123", &mut store, &mut sessions);

    let req = post_request("/project", &cookie, &[("name", "新项目"), ("start", "2026-10-01")]);
    let nums = FormNumbers { budget: bits(500.0), ..numbers() };
    let texts = texts_for(&store);
    let (resp, saved) = dispatch(&req, &mut store, &mut sessions, &mut LoginFailures::new(), &nums, &texts);
    assert!(resp.contains("Location: /projects"));
    assert!(saved);
    let p = store.projects.last().unwrap();
    assert_eq!((p.id, p.name.as_str(), p.start.as_str(), p.status.as_str()), (4, "新项目", "2026-10-01", "进行中"));
    assert_eq!(p.budget, bits(500.0));
    assert_eq!(store.next_id, 5);

    let req = post_request("/member", &cookie, &[("username", "dev2"), ("password", "x"), ("name", "钱开发"), ("role", "qa")]);
    let texts = texts_for(&store);
    let (resp, saved) = dispatch(&req, &mut store, &mut sessions, &mut LoginFailures::new(), &numbers(), &texts);
    assert!(resp.contains("Location: /members"));
    assert!(saved);
    let m = store.members.last().unwrap();
    assert_eq!((m.id, m.username.as_str(), m.role), (5, "dev2", Role::Qa));
    assert_eq!(m.rate, bits(100.0));

    // An empty name adds nothing, but the id is used up.
    let req = post_request("/project", &cookie, &[("name", "")]);
    let texts = texts_for(&store);
    let (_, saved) = dispatch(&req, &mut store, &mut sessions, &mut LoginFailures::new(), &numbers(), &texts);
    assert!(!saved);
    assert_eq!(store.projects.len(), 2);
    assert_eq!(store.next_id, 7);
}

#[test]
fn dev_cannot_create_project() {
    let mut store = test_store();
    let mut sessions = SessionTable::new();
    let (_token, cookie) = login_cookie("dev1", "dv123", &mut store, &mut sessions);
    let req = post_request("/project", &cookie, &[("name", "x")]);
    let texts = texts_for(&store);
    let (resp, saved) = dispatch(&req, &mut store, &mut sessions, &mut LoginFailures::new(), &numbers(), &texts);
    assert!(resp.starts_with("HTTP/1.1 403"));
    assert!(!saved);
    assert_eq!(store.projects.len(), 1);
    assert_eq!(store.next_id, 4);
}

#[test]
fn task_status_and_new_task_and_timesheet() {
    let mut store = test_store();
    let mut sessions = SessionTable::new();
    let (_token, cookie) = login_cookie("dev1", "dv123", &mut store, &mut sessions);

    let req = post_request("/task", &cookie, &[("action", "status"), ("task_id", "1"), ("status", "完成")]);
    let texts = texts_for(&store);
    let (resp, saved) = dispatch(&req, &mut store, &mut sessions, &mut LoginFailures::new(), &numbers(), &texts);
    assert!(resp.contains("Location: /tasks"));
    assert!(saved);
    assert_eq!(store.task_by_id(1).unwrap().status, "完成");

    let req = post_request("/task", &cookie, &[("action", "new"), ("title", "接口联调"), ("project_id", "1"), ("assignee", "2")]);
    let nums = FormNumbers { estimate: bits(6.5), ..numbers() };
    let texts = texts_for(&store);
    let (_, saved) = dispatch(&req, &mut store, &mut sessions, &mut LoginFailures::new(), &nums, &texts);
    assert!(saved);
    let t = store.tasks.last().unwrap();
    assert_eq!((t.id, t.project_id, t.assignee, t.priority.as_str(), t.status.as_str()), (4, 1, Some(2), "中", "待办"));
    assert_eq!(t.estimate_hours, bits(6.5));

    let req = post_request("/timesheet", &cookie, &[("task_id", "1"), ("date", "2026-09-03"), ("note", "n")]);
    let nums = FormNumbers { hours: bits(3.0), ..numbers() };
    let texts = texts_for(&store);
    let (resp, saved) = dispatch(&req, &mut store, &mut sessions, &mut LoginFailures::new(), &nums, &texts);
    assert!(resp.contains("Location: /timesheet"));
    assert!(saved);
    let ts = store.timesheets.last().unwrap();
    assert_eq!((ts.id, ts.task_id, ts.member_id, ts.date.as_str()), (5, 1, 2, "2026-09-03"));

    // Zero hours are not booked.
    let req = post_request("/timesheet", &cookie, &[("task_id", "1")]);
    let texts = texts_for(&store);
    let (_, saved) = dispatch(&req, &mut store, &mut sessions, &mut LoginFailures::new(), &numbers(), &texts);
    assert!(!saved);
    assert_eq!(store.timesheets.len(), 1);
}

#[test]
fn dispatch_at_fixed_time_is_repeatable() {
    // The same clock readings give the same token and the same answers.
    let mut a = test_store();
    let mut b = test_store();
    let mut sa = SessionTable::new();
    let mut sb = SessionTable::new();
    let mut fa = LoginFailures::new();
    let mut fb = LoginFailures::new();
    let ta = texts_for(&a);
    let tb = texts_for(&b);
    let ra = dispatch_at(&login_request("pm1", "pm123"), &mut a, &mut sa, &mut fa, 1000, 77, &numbers(), &ta);
    let rb = dispatch_at(&login_request("pm1", "pm123"), &mut b, &mut sb, &mut fb, 1000, 77, &numbers(), &tb);
    assert_eq!(ra, rb);
    let token = extract_token(&ra.0).unwrap();
    let cookie = format!("token={}", token);
    let page = dispatch_at(&get_request("/dashboard", &cookie), &mut a, &mut sa, &mut fa, 1010, 0, &numbers(), &ta);
    assert!(page.0.starts_with("HTTP/1.1 200"));
    // Long after its lifetime the session no longer logs anyone in.
    let later = dispatch_at(&get_request("/dashboard", &cookie), &mut a, &mut sa, &mut fa, 20362 * 86400, 0, &numbers(), &ta);
    assert!(later.0.contains("Location: /login"));
}

#[test]
fn routes_by_role() {
    assert_eq!(route("GET", "/login", None), Route::LoginPage);
    assert_eq!(route("POST", "/login", Some(Role::Dev)), Route::LoginSubmit);
    assert_eq!(route("GET", "/logout", None), Route::Logout);
    assert_eq!(route("GET", "/tasks", None), Route::ToLogin);
    assert_eq!(route("GET", "/dashboard", Some(Role::Pm)), Route::Dashboard);
    assert_eq!(route("GET", "/dashboard", Some(Role::Qa)), Route::Forbidden);
    assert_eq!(route("POST", "/member", Some(Role::Dev)), Route::Forbidden);
    assert_eq!(route("POST", "/timesheet", Some(Role::Qa)), Route::AddTimesheet);
    assert_eq!(route("GET", "/timesheet", Some(Role::Pm)), Route::Forbidden);
    assert_eq!(route("POST", "/timesheet", Some(Role::Pm)), Route::Forbidden);
    assert_eq!(route("GET", "/task", Some(Role::Pm)), Route::NotFound);
    assert_eq!(route("DELETE", "/", Some(Role::Pm)), Route::NotFound);
}

#[test]
fn manager_cannot_book_hours() {
    let mut store = test_store();
    let mut sessions = SessionTable::new();
    let (_token, cookie) = login_cookie("pm1", "pm123", &mut store, &mut sessions);
    let resp = send(&get_request("/timesheet", &cookie), &mut store, &mut sessions);
    assert!(resp.starts_with("HTTP/1.1 403"));
    let req = post_request("/timesheet", &cookie, &[("task_id", "1")]);
    let nums = FormNumbers { hours: bits(2.0), ..numbers() };
    let texts = texts_for(&store);
    let (resp, saved) = dispatch(&req, &mut store, &mut sessions, &mut LoginFailures::new(), &nums, &texts);
    assert!(resp.starts_with("HTTP/1.1 403"));
    assert!(!saved);
    assert!(store.timesheets.is_empty());
}

#[test]
fn five_wrong_passwords_lock_the_login() {
    let mut store = test_store();
    let mut sessions = SessionTable::new();
    let mut failures = LoginFailures::new();
    let texts = texts_for(&store);
    for i in 0..5u64 {
        let (resp, _) = dispatch_at(&login_request("pm1", "wrong"), &mut store, &mut sessions, &mut failures, 1000 + i, 0, &numbers(), &texts);
        assert!(resp.contains("用户名或密码错误"));
    }
    assert!(is_locked_out_at(&failures, "pm1", 1004));
    // The right password is refused while the lock lasts: 300 s from the fifth failure.
    let (resp, _) = dispatch_at(&login_request("pm1", "pm123"), &mut store, &mut sessions, &mut failures, 1303, 0, &numbers(), &texts);
    assert!(!resp.contains("Set-Cookie:"));
    assert!(resp.contains("账号已锁定"));
    assert_eq!(rdplatform::auth::active_session_count_at(&sessions, 1303), 0);
    // Once it has passed, the right password logs in and clears the failures.
    let (resp, _) = dispatch_at(&login_request("pm1", "pm123"), &mut store, &mut sessions, &mut failures, 1304, 0, &numbers(), &texts);
    assert!(resp.contains("Set-Cookie: token="));
    assert!(!is_locked_out_at(&failures, "pm1", 1304));
    assert!(rdplatform::auth::failure_record(&failures, "pm1").is_none());
}

#[test]
fn write_requests_are_recognised() {
    assert!(is_write_request("POST", "/project"));
    assert!(is_write_request("POST", "/timesheet"));
    assert!(!is_write_request("GET", "/timesheet"));
    assert!(!is_write_request("POST", "/login"));
}
