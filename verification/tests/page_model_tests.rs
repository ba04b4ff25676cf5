//! Roles and the HTML pages.

use rdplatform::model::Role;
use rdplatform::page::{error_page, home_html, layout, login_page, members_html, projects_html, tasks_html};
use rdplatform::store::Store;

#[test]
fn role_roundtrip() {
    assert_eq!(Role::Pm.as_str(), "项目经理");
    assert!(Role::Pm.is_pm());
    assert!(!Role::Dev.is_pm());
    assert_eq!(Role::from_str("dev"), Some(Role::Dev));
}

#[test]
fn role_names_and_identifiers() {
    for r in [Role::Pm, Role::Dev, Role::Qa] {
        assert_eq!(Role::from_str(r.as_str()), Some(r));
    }
    assert_eq!(Role::from_str("Qa"), Some(Role::Qa));
    assert_eq!(Role::from_str("PM"), None);
    assert_eq!(Role::from_str(""), None);
}

#[test]
fn login_page_contains_login_form() {
    let html = login_page(None);

    assert!(html.contains("action=\"/login\""));
    assert!(html.contains("name=\"username\""));
    assert!(html.contains("name=\"password\""));
}

#[test]
fn login_error_is_escaped() {
    let html = login_page(Some("<script>alert(1)</script>"));

    assert!(html.contains("&lt;script&gt;"));
    assert!(!html.contains("<script>alert(1)</script>"));
}

#[test]
fn layout_contains_navigation() {
    let html = layout("测试页面", "张三", "开发", "<p>测试内容</p>");

    assert!(html.contains("张三"));
    assert!(html.contains("开发"));
    assert!(html.contains("/tasks"));
    assert!(html.contains("/my"));
}

#[test]
fn manager_navigation_only_for_managers() {
    let dev = layout("t", "n", "开发", "");
    assert!(!dev.contains("/dashboard"));
    let pm = layout("t", "n", "项目经理", "");
    assert!(pm.contains("/dashboard"));
    assert!(pm.contains("/members"));
    let pm2 = layout("t", "n", "PM", "");
    assert!(pm2.contains("/projects"));
}

#[test]
fn error_page_escapes_message() {
    let html = error_page("a<b");
    assert!(html.contains("a&lt;b"));
    assert!(html.contains("href='/'"));
}

#[test]
fn home_page_shows_role_links() {
    let mut s = Store::new();
    s.seed();
    let pm = home_html(&s.members[0]);
    assert!(pm.contains("/dashboard"));
    let dev = home_html(&s.members[1]);
    assert!(dev.contains("李开发"));
}

#[test]
fn list_pages_print_given_numbers() {
    let mut s = Store::new();
    s.seed();
    let html = projects_html(&s, Some("已保存"), &vec!["100000.00".to_string()]);
    assert!(html.contains("智慧校园 App"));
    assert!(html.contains("100000.00"));
    assert!(html.contains("已保存"));
    let html = tasks_html(&s, None, &vec!["40.0".to_string()], &vec![None]);
    assert!(html.contains("用户登录模块"));
    assert!(html.contains("40.0"));
    assert!(!html.contains("超预估工时提醒"));
    let rates: Vec<String> = vec!["300.00".into(), "200.00".into(), "150.00".into()];
    let html = members_html(&s, None, &rates);
    assert!(html.contains("赵测试"));
    assert!(html.contains("150.00"));
}

#[test]
fn task_page_shows_over_estimate_warnings() {
    let mut s = Store::new();
    s.seed();
    let warnings = vec![Some(("41.5".to_string(), "40.0".to_string()))];
    let html = tasks_html(&s, None, &vec!["40.0".to_string()], &warnings);
    assert!(html.contains("超预估工时提醒"));
    assert!(html.contains("任务《用户登录模块》已使用 41.5 小时"));
}
