//! Request handling: which page or action a request asks for, and who may
//! have it; login and logout; the write actions behind the forms; and
//! `dispatch`, which answers a request with a complete HTTP response.
//!
//! Writing the store to disk after an action, and printing numbers with
//! decimals, are left to the caller.

use vstd::prelude::*;
use crate::auth::{LoginFailures, SessionTable, after_failure, clear_login_failures, cookie_token, create_session_at, destroy_session, is_locked_out_at, locked_out, next_counter, record_login_failure_at, password_matches, session_lookup, session_member_id_at, session_token, token_from_cookie, verify_password};
use crate::clock::{now_nanos, now_secs};
use crate::http::{HttpRequest, http_response, redirect, redirect_text, redirect_with_cookie, redirect_with_cookie_text, response_text};
use crate::model::{FloatBits, Member, Project, Role, Task, Timesheet, float_gt_zero, role_from_name};
use crate::model::consts::{PRJ_ACTIVE, P_MEDIUM, T_TODO};
use crate::model::role_name;
use crate::page::{ProjectFigures, dashboard_content, dashboard_html, error_page, error_text, home_content, home_html, layout_text, login_page, login_text, member_label, members_content, members_html, my_content, my_page_html, projects_content, projects_html, role_label, tasks_content, tasks_html, timesheet_content, timesheet_form_html};
use crate::store::{Store, date_of_secs, find_first, first_where, has_username, iso_date, lemma_first_where_props, load_ids, member_id_is};
use crate::sha::is_lower_hex;
use crate::table::elapsed;
use crate::text::{chars_eq_str, chars_of, parse_u32, parse_unsigned};
use vstd::string::StringExecFns;

verus! {

/// What a request asks for, once the login state is known.
#[derive(Debug, Clone, Copy, PartialEq, Eq, Structural)]
pub enum Route {
    /// `GET /login`: the login page.
    LoginPage,
    /// `POST /login`: checks the credentials.
    LoginSubmit,
    /// `GET /logout`: ends the session.
    Logout,
    /// Any other request without a valid session: back to the login page.
    ToLogin,
    /// `GET /`: the home page.
    Home,
    /// `GET /dashboard` (manager only).
    Dashboard,
    /// `GET /projects` (manager only).
    Projects,
    /// `POST /project` (manager only).
    CreateProject,
    /// `GET /members` (manager only).
    Members,
    /// `POST /member` (manager only).
    CreateMember,
    /// `GET /tasks`.
    Tasks,
    /// `POST /task`.
    UpdateTask,
    /// `GET /timesheet` (developers and testers only).
    TimesheetForm,
    /// `POST /timesheet` (developers and testers only).
    AddTimesheet,
    /// `GET /my`.
    MyPage,
    /// A route asked for by a role it is not for: `403`.
    Forbidden,
    /// Any other path: `404`.
    NotFound,
}

/// The route of a request: the login routes are public; every other request
/// needs a logged-in member; the dashboard, the projects and the members
/// are for the manager only, and booking hours for developers and testers
/// only.
pub open spec fn route_of(method: Seq<char>, path: Seq<char>, role: Option<Role>) -> Route {
    if method == "GET"@ && path == "/login"@ {
        Route::LoginPage
    } else if method == "POST"@ && path == "/login"@ {
        Route::LoginSubmit
    } else if method == "GET"@ && path == "/logout"@ {
        Route::Logout
    } else {
        match role {
            None => Route::ToLogin,
            Some(r) => {
                let pm_only = |x: Route| if r == Role::Pm {
                    x
                } else {
                    Route::Forbidden
                };
                let staff_only = |x: Route| if r != Role::Pm {
                    x
                } else {
                    Route::Forbidden
                };
                if method == "GET"@ && path == "/"@ {
                    Route::Home
                } else if method == "GET"@ && path == "/dashboard"@ {
                    pm_only(Route::Dashboard)
                } else if method == "GET"@ && path == "/projects"@ {
                    pm_only(Route::Projects)
                } else if method == "POST"@ && path == "/project"@ {
                    pm_only(Route::CreateProject)
                } else if method == "GET"@ && path == "/members"@ {
                    pm_only(Route::Members)
                } else if method == "POST"@ && path == "/member"@ {
                    pm_only(Route::CreateMember)
                } else if method == "GET"@ && path == "/tasks"@ {
                    Route::Tasks
                } else if method == "POST"@ && path == "/task"@ {
                    Route::UpdateTask
                } else if method == "GET"@ && path == "/timesheet"@ {
                    staff_only(Route::TimesheetForm)
                } else if method == "POST"@ && path == "/timesheet"@ {
                    staff_only(Route::AddTimesheet)
                } else if method == "GET"@ && path == "/my"@ {
                    Route::MyPage
                } else {
                    Route::NotFound
                }
            },
        }
    }
}

fn is(m: &[char], p: &[char], method: &str, path: &str) -> (res: bool)
    ensures
        res == (m@ == method@ && p@ == path@),
{
    chars_eq_str(m, method) && chars_eq_str(p, path)
}

fn staff_only(role: Role, r: Route) -> (res: Route)
    ensures
        res == (if role != Role::Pm {
            r
        } else {
            Route::Forbidden
        }),
{
    if role.is_pm() {
        Route::Forbidden
    } else {
        r
    }
}

fn pm_only(role: Role, r: Route) -> (res: Route)
    ensures
        res == (if role == Role::Pm {
            r
        } else {
            Route::Forbidden
        }),
{
    if role.is_pm() {
        r
    } else {
        Route::Forbidden
    }
}

/// Routes a request by method and path, given the role of the logged-in
/// member (`None` when no one is logged in).
pub fn route(method: &str, path: &str, role: Option<Role>) -> (res: Route)
    ensures
        res == route_of(method@, path@, role),
{
    let m = chars_of(method);
    let p = chars_of(path);
    let (m, p) = (m.as_slice(), p.as_slice());
    if is(m, p, "GET", "/login") {
        Route::LoginPage
    } else if is(m, p, "POST", "/login") {
        Route::LoginSubmit
    } else if is(m, p, "GET", "/logout") {
        Route::Logout
    } else {
        match role {
            None => Route::ToLogin,
            Some(r) => {
                if is(m, p, "GET", "/") {
                    Route::Home
                } else if is(m, p, "GET", "/dashboard") {
                    pm_only(r, Route::Dashboard)
                } else if is(m, p, "GET", "/projects") {
                    pm_only(r, Route::Projects)
                } else if is(m, p, "POST", "/project") {
                    pm_only(r, Route::CreateProject)
                } else if is(m, p, "GET", "/members") {
                    pm_only(r, Route::Members)
                } else if is(m, p, "POST", "/member") {
                    pm_only(r, Route::CreateMember)
                } else if is(m, p, "GET", "/tasks") {
                    Route::Tasks
                } else if is(m, p, "POST", "/task") {
                    Route::UpdateTask
                } else if is(m, p, "GET", "/timesheet") {
                    staff_only(r, Route::TimesheetForm)
                } else if is(m, p, "POST", "/timesheet") {
                    staff_only(r, Route::AddTimesheet)
                } else if is(m, p, "GET", "/my") {
                    Route::MyPage
                } else {
                    Route::NotFound
                }
            },
        }
    }
}

// ------------------------------------------------------------------
// Login state
// ------------------------------------------------------------------

/// The member whose session the request's cookie names, if the session has
/// not expired at `now`: the first member with the session's member id.
pub open spec fn member_of_request(req: HttpRequest, store: Store, sessions: SessionTable, now: u64) -> Option<Member> {
    match cookie_token(req.cookie@) {
        Some(token) => match session_lookup(sessions.sessions(), sessions.ttl(), token, now) {
            Some(id) => find_first(store.members@, member_id_is(id)),
            None => None,
        },
        None => None,
    }
}

/// The logged-in member of a request at time `now` (cookie, then session,
/// then member).
pub fn current_member_at<'a>(req: &HttpRequest, store: &'a Store, sessions: &SessionTable, now: u64) -> (res: Option<&'a Member>)
    ensures
        match member_of_request(*req, *store, *sessions, now) {
            Some(m) => res matches Some(r) && *r == m,
            None => res is None,
        },
{
    match token_from_cookie(req.cookie.as_str()) {
        Some(token) => match session_member_id_at(sessions, token.as_str(), now) {
            Some(id) => store.member_by_id(id),
            None => None,
        },
        None => None,
    }
}

/// The logged-in member of a request by the clock.
pub fn current_member<'a>(req: &HttpRequest, store: &'a Store, sessions: &SessionTable) -> (res: Option<&'a Member>)
    ensures
        exists|now: u64|
            #![trigger member_of_request(*req, *store, *sessions, now)]
            match member_of_request(*req, *store, *sessions, now) {
                Some(m) => res matches Some(r) && *r == m,
                None => res is None,
            },
{
    let now = now_secs();
    current_member_at(req, store, sessions, now)
}

/// The content type of the pages.
pub const HTML: &'static str = "text/html; charset=utf-8";

/// `GET /login`: the login page.
pub fn handle_login_page(req: &HttpRequest, sessions: &SessionTable) -> (res: String)
    ensures
        res@ == response_text(200, HTML@, login_text(None)),
{
    let empty = Store::new();
    match current_member(req, &empty, sessions) {
        Some(_) => {
            proof {
                let now = choose|now: u64|
                    #![trigger member_of_request(*req, empty, *sessions, now)]
                    match member_of_request(*req, empty, *sessions, now) {
                        Some(m) => true,
                        None => false,
                    };
                assert(empty.members@.len() == 0);
                assert(false);
            }
            redirect("/")
        },
        None => {
            let page = login_page(None);
            http_response(200, HTML, page.as_str())
        },
    }
}

/// A parameter of the request, or the empty text when it is absent.
pub open spec fn param_or_empty(req: HttpRequest, name: Seq<char>) -> Seq<char> {
    match req.param_value(name) {
        Some(v) => v,
        None => Seq::empty(),
    }
}

fn param_or_empty_exec(req: &HttpRequest, name: &str) -> (res: String)
    ensures
        res@ == param_or_empty(*req, name@),
{
    match req.param(name) {
        Some(v) => v,
        None => String::new(),
    }
}

/// The member that a login names, when the password matches: the first
/// member with the user name.
pub open spec fn login_member(store: Store, username: Seq<char>, password: Seq<char>) -> Option<u32> {
    match find_first(store.members@, has_username(username)) {
        Some(m) => if password_matches(password, m.password_hash@) {
            Some(m.id)
        } else {
            None
        },
        None => None,
    }
}

/// The message of a failed login.
pub open spec fn login_failed_text() -> Seq<char> {
    "用户名或密码错误"@
}

/// The message of a login refused because the user name is locked.
pub open spec fn locked_text() -> Seq<char> {
    "登录失败次数过多，账号已锁定，请 5 分钟后再试"@
}

/// The outcome of `POST /login` at time `now`, with the clock reading
/// `nanos` for the token. While the user name is locked, the login page with
/// the lock message, and nothing changes. Otherwise, with the right user name
/// and password: the user's failures are cleared, a new session (a token of
/// 64 lower-case hex digits) is added, and the answer is a redirect to `/`
/// that sets the session cookie. With a wrong user name or password: the
/// failure is recorded, and the answer is the login page with an error.
pub open spec fn login_outcome(
    req: HttpRequest,
    store: Store,
    before: SessionTable,
    after: SessionTable,
    failures: LoginFailures,
    failures_after: LoginFailures,
    nanos: u128,
    now: u64,
    res: Seq<char>,
) -> bool {
    let user = param_or_empty(req, "username"@);
    &&& if locked_out(failures.records(), user, now) {
        &&& res == response_text(200, HTML@, login_text(Some(locked_text())))
        &&& after.sessions() == before.sessions()
        &&& after.counter() == before.counter()
        &&& failures_after.records() == failures.records()
    } else {
        match login_member(store, user, param_or_empty(req, "password"@)) {
            Some(id) => {
                let token = session_token(nanos, id, before.counter());
                &&& token.len() == 64
                &&& forall|i: int| 0 <= i < token.len() ==> is_lower_hex(#[trigger] token[i])
                &&& res == redirect_with_cookie_text("/"@, "token="@ + token)
                &&& after.sessions() == before.sessions().insert(token, (id, now))
                &&& after.counter() == next_counter(before.counter())
                &&& failures_after.records() == failures.records().remove(user)
            },
            None => {
                &&& res == response_text(200, HTML@, login_text(Some(login_failed_text())))
                &&& after.sessions() == before.sessions()
                &&& after.counter() == before.counter()
                &&& failures_after.records() == after_failure(failures.records(), user, now)
            },
        }
    }
    &&& after.ttl() == before.ttl()
}

/// `POST /login` at time `now` (see `login_outcome`).
pub fn handle_login_post_at(
    req: &HttpRequest,
    store: &Store,
    sessions: &mut SessionTable,
    failures: &mut LoginFailures,
    nanos: u128,
    now: u64,
) -> (res: String)
    ensures
        login_outcome(*req, *store, *old(sessions), *final(sessions), *old(failures), *final(failures), nanos, now, res@),
{
    let username = param_or_empty_exec(req, "username");
    let password = param_or_empty_exec(req, "password");
    if is_locked_out_at(failures, username.as_str(), now) {
        let page = login_page(Some("登录失败次数过多，账号已锁定，请 5 分钟后再试"));
        return http_response(200, HTML, page.as_str());
    }
    let found = match store.find_member_by_username(username.as_str()) {
        Some(m) => if verify_password(password.as_str(), m.password_hash.as_str()) {
            Some(m.id)
        } else {
            None
        },
        None => None,
    };
    match found {
        Some(member_id) => {
            clear_login_failures(failures, username.as_str());
            let token = create_session_at(sessions, member_id, nanos, now);
            let mut cookie = String::from_str("token=");
            cookie.append(token.as_str());
            redirect_with_cookie("/", cookie.as_str())
        },
        None => {
            record_login_failure_at(failures, username.as_str(), now);
            let page = login_page(Some("用户名或密码错误"));
            http_response(200, HTML, page.as_str())
        },
    }
}

/// `POST /login` by the clock (see `login_outcome`).
pub fn handle_login_post(
    req: &HttpRequest,
    store: &Store,
    sessions: &mut SessionTable,
    failures: &mut LoginFailures,
) -> (res: String)
    ensures
        exists|nanos: u128, now: u64|
            login_outcome(*req, *store, *old(sessions), *final(sessions), *old(failures), *final(failures), nanos, now, res@),
{
    let nanos = now_nanos();
    let now = now_secs();
    handle_login_post_at(req, store, sessions, failures, nanos, now)
}

/// The outcome of `GET /logout`: the session the cookie names is ended, and
/// the answer is a redirect to the login page.
pub open spec fn logout_outcome(req: HttpRequest, before: SessionTable, after: SessionTable, res: Seq<char>) -> bool {
    &&& res == redirect_text("/login"@)
    &&& match cookie_token(req.cookie@) {
        Some(t) => after.sessions() == before.sessions().remove(t),
        None => after.sessions() == before.sessions(),
    }
    &&& after.ttl() == before.ttl()
    &&& after.counter() == before.counter()
}

/// `GET /logout`: ends the session the cookie names, then back to the login page.
pub fn handle_logout(req: &HttpRequest, sessions: &mut SessionTable) -> (res: String)
    ensures
        logout_outcome(*req, *old(sessions), *final(sessions), res@),
{
    match token_from_cookie(req.cookie.as_str()) {
        Some(token) => destroy_session(sessions, token.as_str()),
        None => {},
    }
    redirect("/login")
}

// ------------------------------------------------------------------
// Write actions (the caller saves the store when they report a change)
// ------------------------------------------------------------------

/// The fields and counters other than the ones an action changes are kept.
pub open spec fn keeps_others(before: Store, after: Store) -> bool {
    &&& after.next_id == before.next_id + 1
    &&& after.path == before.path
}

/// The store after `POST /project`: a new active project made of the form
/// fields, with the given budget and the next id, when the name is not
/// empty (`saved`); the id is used up either way.
pub open spec fn project_created(req: HttpRequest, before: Store, after: Store, budget: FloatBits, saved: bool) -> bool {
    &&& saved == (param_or_empty(req, "name"@).len() > 0)
    &&& saved ==> {
        &&& after.projects@.len() == before.projects@.len() + 1
        &&& after.projects@.drop_last() == before.projects@
        &&& after.projects@.last().id == before.next_id
        &&& after.projects@.last().name@ == param_or_empty(req, "name"@)
        &&& after.projects@.last().desc@ == param_or_empty(req, "desc"@)
        &&& after.projects@.last().budget == budget
        &&& after.projects@.last().start@ == param_or_empty(req, "start"@)
        &&& after.projects@.last().deadline@ == param_or_empty(req, "deadline"@)
        &&& after.projects@.last().status@ == PRJ_ACTIVE@
    }
    &&& !saved ==> after.projects == before.projects
    &&& after.members == before.members
    &&& after.tasks == before.tasks
    &&& after.timesheets == before.timesheets
    &&& keeps_others(before, after)
}

/// `POST /project`: allocates an id and adds an active project made of the
/// form fields, with the given budget, when the name is not empty. Returns
/// whether the store is to be saved (the name was not empty).
pub fn create_project(req: &HttpRequest, store: &mut Store, budget: FloatBits) -> (saved: bool)
    requires
        old(store).next_id < u32::MAX,
    ensures
        project_created(*req, *old(store), *final(store), budget, saved),
{
    let id = store.alloc_id();
    let project = Project {
        id,
        name: param_or_empty_exec(req, "name"),
        desc: param_or_empty_exec(req, "desc"),
        budget,
        start: param_or_empty_exec(req, "start"),
        deadline: param_or_empty_exec(req, "deadline"),
        status: String::from_str(PRJ_ACTIVE),
    };
    if project.name.as_str().is_empty() {
        return false;
    }
    let ghost before = store.projects@;
    let _ = store.add_project(project);
    assert(store.projects@.drop_last() =~= before);
    true
}

/// The role a form asks for: the role its `role` field names, else developer.
pub open spec fn form_role(req: HttpRequest) -> Role {
    match req.param_value("role"@) {
        Some(r) => match role_from_name(r) {
            Some(role) => role,
            None => Role::Dev,
        },
        None => Role::Dev,
    }
}

/// Whether a member has the user name.
pub open spec fn username_taken(members: Seq<Member>, username: Seq<char>) -> bool {
    exists|i: int| 0 <= i < members.len() && #[trigger] members[i].username@ == username
}

/// The store after `POST /member`: when the user name and the name are not
/// empty (`saved`) and the user name is free, a new member made of the form
/// fields (password hashed, role by name or else developer, the given rate)
/// with the next id; the id is used up either way.
pub open spec fn member_created(req: HttpRequest, before: Store, after: Store, rate: FloatBits, saved: bool) -> bool {
    let username = param_or_empty(req, "username"@);
    &&& saved == (username.len() > 0 && param_or_empty(req, "name"@).len() > 0)
    &&& saved && !username_taken(before.members@, username) ==> {
        &&& after.members@.len() == before.members@.len() + 1
        &&& after.members@.drop_last() == before.members@
        &&& after.members@.last().id == before.next_id
        &&& after.members@.last().username@ == username
        &&& after.members@.last().password_hash@ == crate::auth::password_hash(param_or_empty(req, "password"@))
        &&& after.members@.last().name@ == param_or_empty(req, "name"@)
        &&& after.members@.last().role == form_role(req)
        &&& after.members@.last().rate == rate
    }
    &&& !saved || username_taken(before.members@, username) ==> after.members == before.members
    &&& after.projects == before.projects
    &&& after.tasks == before.tasks
    &&& after.timesheets == before.timesheets
    &&& keeps_others(before, after)
}

/// `POST /member`: allocates an id and adds a member made of the form
/// fields (password hashed, role by name or else developer, the given rate)
/// when the user name and the name are not empty; a user name that is taken
/// adds nothing. Returns whether the store is to be saved.
pub fn create_member(req: &HttpRequest, store: &mut Store, rate: FloatBits) -> (saved: bool)
    requires
        old(store).next_id < u32::MAX,
    ensures
        member_created(*req, *old(store), *final(store), rate, saved),
{
    let role = match req.param("role") {
        Some(r) => match Role::from_str(r.as_str()) {
            Some(role) => role,
            None => Role::Dev,
        },
        None => Role::Dev,
    };
    let id = store.alloc_id();
    let password = param_or_empty_exec(req, "password");
    let member = Member {
        id,
        username: param_or_empty_exec(req, "username"),
        password_hash: crate::auth::hash_password(password.as_str()),
        name: param_or_empty_exec(req, "name"),
        role,
        rate,
    };
    if member.username.as_str().is_empty() || member.name.as_str().is_empty() {
        return false;
    }
    let ghost before = store.members@;
    let _ = store.add_member(member);
    assert(store.members@.len() > before.len() ==> store.members@.drop_last() =~= before);
    true
}

/// A number field of the form as `u32` (`str::parse`), if present and valid.
pub open spec fn param_u32(req: HttpRequest, name: Seq<char>) -> Option<u32> {
    match req.param_value(name) {
        Some(v) => match parse_unsigned(v, u32::MAX as nat) {
            Some(x) => Some(x as u32),
            None => None,
        },
        None => None,
    }
}

fn param_u32_exec(req: &HttpRequest, name: &str) -> (res: Option<u32>)
    ensures
        res == param_u32(*req, name@),
{
    match req.param(name) {
        Some(v) => {
            let cs = chars_of(v.as_str());
            parse_u32(cs.as_slice())
        },
        None => None,
    }
}

/// The store after `POST /task` (see `update_task`).
pub open spec fn task_updated(req: HttpRequest, before: Store, after: Store, estimate: FloatBits, saved: bool) -> bool {
    let action = param_or_empty(req, "action"@);
    if action == "status"@ {
        match (param_u32(req, "task_id"@), req.param_value("status"@)) {
            (Some(id), Some(st)) => saved && status_updated_store(before, after, id, st),
            _ => !saved && after == before,
        }
    } else if action == "new"@ {
        &&& saved == (param_or_empty(req, "title"@).len() > 0)
        &&& keeps_others(before, after)
        &&& after.members == before.members
        &&& after.projects == before.projects
        &&& after.timesheets == before.timesheets
        &&& saved ==> {
            &&& after.tasks@.len() == before.tasks@.len() + 1
            &&& after.tasks@.drop_last() == before.tasks@
            &&& after.tasks@.last().id == before.next_id
            &&& after.tasks@.last().project_id == match param_u32(req, "project_id"@) {
                Some(x) => x,
                None => 0,
            }
            &&& after.tasks@.last().title@ == param_or_empty(req, "title"@)
            &&& after.tasks@.last().assignee == param_u32(req, "assignee"@)
            &&& after.tasks@.last().priority@ == match req.param_value("priority"@) {
                Some(p) => p,
                None => P_MEDIUM@,
            }
            &&& after.tasks@.last().status@ == T_TODO@
            &&& after.tasks@.last().estimate_hours == estimate
            &&& after.tasks@.last().deadline@ == param_or_empty(req, "deadline"@)
        }
        &&& !saved ==> after.tasks == before.tasks
    } else {
        !saved && after == before
    }
}

/// `POST /task`. With `action=status`, a valid `task_id` and a `status`:
/// sets that task's status and asks for a save. With `action=new`: allocates
/// an id and, when the title is not empty, adds a to-do task made of the
/// form fields (project id 0 and priority `中` by default, the given
/// estimate) and asks for a save. Anything else changes nothing.
pub fn update_task(req: &HttpRequest, store: &mut Store, estimate: FloatBits) -> (saved: bool)
    requires
        old(store).next_id < u32::MAX,
    ensures
        task_updated(*req, *old(store), *final(store), estimate, saved),
{
    let action = param_or_empty_exec(req, "action");
    let ac = chars_of(action.as_str());
    if chars_eq_str(ac.as_slice(), "status") {
        match param_u32_exec(req, "task_id") {
            Some(task_id) => match req.param("status") {
                Some(status) => {
                    let _ = store.set_task_status(task_id, status.as_str());
                    true
                },
                None => false,
            },
            None => false,
        }
    } else if chars_eq_str(ac.as_slice(), "new") {
        let id = store.alloc_id();
        let project_id = match param_u32_exec(req, "project_id") {
            Some(x) => x,
            None => 0,
        };
        let priority = match req.param("priority") {
            Some(p) => p,
            None => String::from_str(P_MEDIUM),
        };
        let task = Task {
            id,
            project_id,
            title: param_or_empty_exec(req, "title"),
            assignee: param_u32_exec(req, "assignee"),
            priority,
            status: String::from_str(T_TODO),
            estimate_hours: estimate,
            deadline: param_or_empty_exec(req, "deadline"),
        };
        if task.title.as_str().is_empty() {
            return false;
        }
        let ghost before = store.tasks@;
        let _ = store.add_task(task);
        assert(store.tasks@.drop_last() =~= before);
        true
    } else {
        false
    }
}

/// The store after a status update: only the tasks change, as `status_updated` says.
pub open spec fn status_updated_store(before: Store, after: Store, task_id: u32, status: Seq<char>) -> bool {
    &&& crate::store::status_updated(before.tasks@, after.tasks@, task_id, status)
    &&& after.members == before.members
    &&& after.projects == before.projects
    &&& after.timesheets == before.timesheets
    &&& after.next_id == before.next_id
    &&& after.path == before.path
}

/// The store after `POST /timesheet` by a member (see `add_timesheet`).
pub open spec fn timesheet_added(req: HttpRequest, before: Store, after: Store, member_id: u32, hours: FloatBits, saved: bool) -> bool {
    let task_id = match param_u32(req, "task_id"@) {
        Some(x) => x,
        None => 0,
    };
    let added = saved && find_first(before.tasks@, crate::store::task_id_is(task_id)) is Some;
    &&& saved == (task_id > 0 && float_gt_zero(hours.bits))
    &&& added ==> {
        &&& after.timesheets@.len() == before.timesheets@.len() + 1
        &&& after.timesheets@.drop_last() == before.timesheets@
        &&& after.timesheets@.last().id == before.next_id
        &&& after.timesheets@.last().task_id == task_id
        &&& after.timesheets@.last().member_id == member_id
        &&& (match req.param_value("date"@) {
            Some(d) => after.timesheets@.last().date@ == d,
            None => exists|secs: u64| after.timesheets@.last().date@ == iso_date(secs),
        })
        &&& after.timesheets@.last().hours == hours
        &&& after.timesheets@.last().note@ == param_or_empty(req, "note"@)
    }
    &&& !added ==> after.timesheets == before.timesheets
    &&& after.members == before.members
    &&& after.projects == before.projects
    &&& after.tasks == before.tasks
    &&& keeps_others(before, after)
}

/// `POST /timesheet`: allocates an id and, when the form names a task id
/// above 0 and the hours are positive, adds a timesheet of the member for
/// that task (dated by the form, else today), which the store refuses when
/// no task has the id. Returns whether the store is to be saved.
pub fn add_timesheet(req: &HttpRequest, store: &mut Store, member_id: u32, hours: FloatBits) -> (saved: bool)
    requires
        old(store).next_id < u32::MAX,
    ensures
        timesheet_added(*req, *old(store), *final(store), member_id, hours, saved),
{
    let id = store.alloc_id();
    let task_id = match param_u32_exec(req, "task_id") {
        Some(x) => x,
        None => 0,
    };
    let date = match req.param("date") {
        Some(d) => d,
        None => Store::today_iso(),
    };
    let sheet = Timesheet { id, task_id, member_id, date, hours, note: param_or_empty_exec(req, "note") };
    if task_id > 0 && hours.gt_zero() {
        let ghost before = store.timesheets@;
        let _ = store.add_timesheet(sheet);
        assert(store.timesheets@.len() > before.len() ==> store.timesheets@.drop_last() =~= before);
        true
    } else {
        false
    }
}

// ------------------------------------------------------------------
// Dispatch
// ------------------------------------------------------------------

/// What the pages print of the numbers with decimals, prepared by the
/// caller from the store: the budget of each project (two decimals), the
/// estimate of each task (one decimal), the rate of each member (two
/// decimals), the hours of each timesheet (one decimal), the over-estimate
/// warning of each task (hours used and estimate, one decimal each, when
/// the hours used exceed the estimate), the dashboard figures of each
/// project, and the hours of each member in `Store::member_load_groups`.
pub struct PageTexts {
    pub budgets: Vec<String>,
    pub estimates: Vec<String>,
    pub rates: Vec<String>,
    pub hours: Vec<String>,
    pub warnings: Vec<Option<(String, String)>>,
    pub figures: Vec<ProjectFigures>,
    pub load_hours: Vec<String>,
}

impl PageTexts {
    /// One text for each item of the store that it stands for.
    pub open spec fn fits(&self, store: Store) -> bool {
        &&& self.budgets@.len() == store.projects@.len()
        &&& self.figures@.len() == store.projects@.len()
        &&& self.estimates@.len() == store.tasks@.len()
        &&& self.warnings@.len() == store.tasks@.len()
        &&& self.rates@.len() == store.members@.len()
        &&& self.hours@.len() == store.timesheets@.len()
        &&& self.load_hours@.len() == load_ids(store.timesheets@).len()
    }
}

/// The numbers of a form, read by the caller (`str::parse::<f64>`): the
/// budget (else 0), the rate (else 100), the estimate (else 0) and the hours
/// (else 0).
#[derive(Clone, Copy)]
pub struct FormNumbers {
    pub budget: FloatBits,
    pub rate: FloatBits,
    pub estimate: FloatBits,
    pub hours: FloatBits,
}

/// The message of the `403` page.
pub open spec fn forbidden_text() -> Seq<char> {
    "权限不足：该功能仅项目经理可用"@
}

/// The message of the `404` page.
pub open spec fn not_found_text() -> Seq<char> {
    "页面不存在"@
}

/// The answer to a route that reads and does not write, for the member `m`
/// (when one is logged in) on day `today`.
pub open spec fn page_of(r: Route, store: Store, m: Member, texts: PageTexts, today: Seq<char>) -> Seq<char> {
    match r {
        Route::LoginPage => response_text(200, HTML@, login_text(None)),
        Route::ToLogin => redirect_text("/login"@),
        Route::Home => response_text(
            200,
            HTML@,
            layout_text("首页"@, m.name@, role_name(m.role), home_content(m.role == Role::Pm)),
        ),
        Route::Dashboard => response_text(
            200,
            HTML@,
            layout_text("管理仪表盘"@, "项目经理"@, "项目经理"@, dashboard_content(store, texts.figures@, texts.load_hours@, today)),
        ),
        Route::Projects => response_text(
            200,
            HTML@,
            layout_text("项目管理"@, "项目经理"@, "项目经理"@, projects_content(store.projects@, None, texts.budgets@)),
        ),
        Route::Members => response_text(
            200,
            HTML@,
            layout_text("成员管理"@, "项目经理"@, "项目经理"@, members_content(store.members@, None, texts.rates@)),
        ),
        Route::Tasks => response_text(
            200,
            HTML@,
            layout_text("任务管理"@, "成员"@, "成员"@, tasks_content(store, None, texts.estimates@, texts.warnings@)),
        ),
        Route::TimesheetForm => response_text(
            200,
            HTML@,
            layout_text(
                "工时登记"@,
                member_label(store.members@, m.id),
                role_label(store.members@, m.id),
                timesheet_content(store.tasks@, texts.warnings@),
            ),
        ),
        Route::MyPage => response_text(
            200,
            HTML@,
            layout_text("我的工作台"@, m.name@, "成员"@, my_content(store, m.id, texts.estimates@, texts.hours@)),
        ),
        Route::Forbidden => response_text(403, HTML@, error_text(forbidden_text())),
        Route::NotFound => response_text(404, HTML@, error_text(not_found_text())),
        _ => Seq::empty(),
    }
}

/// The outcome of a request at time `now` (`nanos`: the clock reading for a
/// new token): the route follows from the method, the path and the role of
/// the logged-in member; login changes the sessions and the login failures,
/// logout the sessions; the write actions change the store and answer with a
/// redirect to their page (`saved`: the store is to be written out); every
/// other route changes nothing and answers with its page.
pub open spec fn dispatch_outcome(
    req: HttpRequest,
    store: Store,
    store_after: Store,
    sessions: SessionTable,
    sessions_after: SessionTable,
    failures: LoginFailures,
    failures_after: LoginFailures,
    now: u64,
    nanos: u128,
    numbers: FormNumbers,
    texts: PageTexts,
    res: Seq<char>,
    saved: bool,
) -> bool {
    let member = member_of_request(req, store, sessions, now);
    let role = match member {
        Some(m) => Some(m.role),
        None => None,
    };
    let r = route_of(req.method@, req.path@, role);
    let m = member.unwrap();
    let same_failures = failures_after.records() == failures.records();
    match r {
        Route::LoginSubmit => login_outcome(req, store, sessions, sessions_after, failures, failures_after, nanos, now, res)
            && !saved && store_after == store,
        Route::Logout => logout_outcome(req, sessions, sessions_after, res) && !saved && store_after == store
            && same_failures,
        Route::CreateProject => res == redirect_text("/projects"@) && project_created(
            req,
            store,
            store_after,
            numbers.budget,
            saved,
        ) && sessions_after == sessions && same_failures,
        Route::CreateMember => res == redirect_text("/members"@) && member_created(
            req,
            store,
            store_after,
            numbers.rate,
            saved,
        ) && sessions_after == sessions && same_failures,
        Route::UpdateTask => res == redirect_text("/tasks"@) && task_updated(
            req,
            store,
            store_after,
            numbers.estimate,
            saved,
        ) && sessions_after == sessions && same_failures,
        Route::AddTimesheet => res == redirect_text("/timesheet"@) && timesheet_added(
            req,
            store,
            store_after,
            m.id,
            numbers.hours,
            saved,
        ) && sessions_after == sessions && same_failures,
        _ => res == page_of(r, store, m, texts, iso_date(now)) && !saved && store_after == store
            && sessions_after == sessions && same_failures,
    }
}

/// A request that may add to the store: `POST` of a project, a member, a
/// task or a timesheet.
pub open spec fn write_request(method: Seq<char>, path: Seq<char>) -> bool {
    method == "POST"@ && (path == "/project"@ || path == "/member"@ || path == "/task"@ || path == "/timesheet"@)
}

/// A request for a page that prints numbers of the store: `GET` of the
/// dashboard, the projects, the members, the tasks, the timesheet form or
/// the member's own page.
pub open spec fn page_request(method: Seq<char>, path: Seq<char>) -> bool {
    method == "GET"@ && (path == "/dashboard"@ || path == "/projects"@ || path == "/members"@ || path
        == "/tasks"@ || path == "/timesheet"@ || path == "/my"@)
}

/// Whether a request may add to the store (see `write_request`).
pub fn is_write_request(method: &str, path: &str) -> (res: bool)
    ensures
        res == write_request(method@, path@),
{
    let m = chars_of(method);
    let p = chars_of(path);
    chars_eq_str(m.as_slice(), "POST") && (chars_eq_str(p.as_slice(), "/project") || chars_eq_str(
        p.as_slice(),
        "/member",
    ) || chars_eq_str(p.as_slice(), "/task") || chars_eq_str(p.as_slice(), "/timesheet"))
}

/// Answers a request at time `now` (`nanos`: the clock reading for a new
/// token), as `dispatch_outcome` says; the second result tells whether the
/// store is to be written out.
pub fn dispatch_at(
    req: &HttpRequest,
    store: &mut Store,
    sessions: &mut SessionTable,
    failures: &mut LoginFailures,
    now: u64,
    nanos: u128,
    numbers: &FormNumbers,
    texts: &PageTexts,
) -> (res: (String, bool))
    requires
        write_request(req.method@, req.path@) ==> old(store).next_id < u32::MAX,
        page_request(req.method@, req.path@) ==> texts.fits(*old(store)),
    ensures
        dispatch_outcome(
            *req,
            *old(store),
            *final(store),
            *old(sessions),
            *final(sessions),
            *old(failures),
            *final(failures),
            now,
            nanos,
            *numbers,
            *texts,
            res.0@,
            res.1,
        ),
{
    let member: Option<Member> = match current_member_at(req, store, sessions, now) {
        Some(m) => Some(m.copy()),
        None => None,
    };
    let role = match &member {
        Some(m) => Some(m.role),
        None => None,
    };
    let r = route(req.method.as_str(), req.path.as_str(), role);
    match r {
        Route::LoginPage => (handle_login_page(req, sessions), false),
        Route::LoginSubmit => (handle_login_post_at(req, store, sessions, failures, nanos, now), false),
        Route::Logout => (handle_logout(req, sessions), false),
        Route::ToLogin => (redirect("/login"), false),
        Route::Home => {
            let page = match &member {
                Some(m) => home_html(m),
                None => String::new(),
            };
            (http_response(200, HTML, page.as_str()), false)
        },
        Route::Dashboard => {
            let today = date_of_secs(now);
            let page = dashboard_html(store, &texts.figures, &texts.load_hours, today.as_str());
            (http_response(200, HTML, page.as_str()), false)
        },
        Route::Projects => {
            let page = projects_html(store, None, &texts.budgets);
            (http_response(200, HTML, page.as_str()), false)
        },
        Route::CreateProject => {
            let saved = create_project(req, store, numbers.budget);
            (redirect("/projects"), saved)
        },
        Route::Members => {
            let page = members_html(store, None, &texts.rates);
            (http_response(200, HTML, page.as_str()), false)
        },
        Route::CreateMember => {
            let saved = create_member(req, store, numbers.rate);
            (redirect("/members"), saved)
        },
        Route::Tasks => {
            let page = tasks_html(store, None, &texts.estimates, &texts.warnings);
            (http_response(200, HTML, page.as_str()), false)
        },
        Route::UpdateTask => {
            let saved = update_task(req, store, numbers.estimate);
            (redirect("/tasks"), saved)
        },
        Route::TimesheetForm => {
            let id = match &member {
                Some(m) => m.id,
                None => 0,
            };
            let page = timesheet_form_html(store, id, &texts.warnings);
            (http_response(200, HTML, page.as_str()), false)
        },
        Route::AddTimesheet => {
            let id = match &member {
                Some(m) => m.id,
                None => 0,
            };
            let saved = add_timesheet(req, store, id, numbers.hours);
            (redirect("/timesheet"), saved)
        },
        Route::MyPage => {
            let page = match &member {
                Some(m) => my_page_html(store, m.id, m.name.as_str(), &texts.estimates, &texts.hours),
                None => String::new(),
            };
            (http_response(200, HTML, page.as_str()), false)
        },
        Route::Forbidden => {
            let page = error_page("权限不足：该功能仅项目经理可用");
            (http_response(403, HTML, page.as_str()), false)
        },
        Route::NotFound => {
            let page = error_page("页面不存在");
            (http_response(404, HTML, page.as_str()), false)
        },
    }
}

/// Answers a request by the clock (see `dispatch_at`).
pub fn dispatch(
    req: &HttpRequest,
    store: &mut Store,
    sessions: &mut SessionTable,
    failures: &mut LoginFailures,
    numbers: &FormNumbers,
    texts: &PageTexts,
) -> (res: (String, bool))
    requires
        write_request(req.method@, req.path@) ==> old(store).next_id < u32::MAX,
        page_request(req.method@, req.path@) ==> texts.fits(*old(store)),
    ensures
        exists|now: u64, nanos: u128|
            dispatch_outcome(
                *req,
                *old(store),
                *final(store),
                *old(sessions),
                *final(sessions),
                *old(failures),
                *final(failures),
                now,
                nanos,
                *numbers,
                *texts,
                res.0@,
                res.1,
            ),
{
    let nanos = now_nanos();
    let now = now_secs();
    dispatch_at(req, store, sessions, failures, now, nanos, numbers, texts)
}

// ------------------------------------------------------------------
// Laws of the routing
// ------------------------------------------------------------------

/// The lengths and second characters of the methods and paths of the route
/// table, which tell them apart.
proof fn lemma_route_literals()
    ensures
        "GET"@.len() == 3 && "POST"@.len() == 4,
        "/"@.len() == 1 && "/my"@.len() == 3 && "/task"@.len() == 5 && "/tasks"@.len() == 6,
        "/login"@.len() == 6 && "/logout"@.len() == 7 && "/member"@.len() == 7,
        "/project"@.len() == 8 && "/members"@.len() == 8 && "/projects"@.len() == 9,
        "/dashboard"@.len() == 10 && "/timesheet"@.len() == 10,
        "/my"@[1] == 'm' && "/task"@[1] == 't' && "/tasks"@[1] == 't' && "/login"@[1] == 'l',
        "/logout"@[1] == 'l' && "/member"@[1] == 'm' && "/project"@[1] == 'p',
        "/members"@[1] == 'm' && "/projects"@[1] == 'p' && "/dashboard"@[1] == 'd',
        "/timesheet"@[1] == 't',
{
    reveal_strlit("GET");
    reveal_strlit("POST");
    reveal_strlit("/");
    reveal_strlit("/my");
    reveal_strlit("/task");
    reveal_strlit("/tasks");
    reveal_strlit("/login");
    reveal_strlit("/logout");
    reveal_strlit("/member");
    reveal_strlit("/project");
    reveal_strlit("/members");
    reveal_strlit("/projects");
    reveal_strlit("/dashboard");
    reveal_strlit("/timesheet");
}

/// A request of the route table.
pub open spec fn known_request(method: Seq<char>, path: Seq<char>) -> bool {
    ||| method == "GET"@ && (path == "/login"@ || path == "/logout"@ || path == "/"@ || path == "/dashboard"@
        || path == "/projects"@ || path == "/members"@ || path == "/tasks"@ || path == "/timesheet"@
        || path == "/my"@)
    ||| method == "POST"@ && (path == "/login"@ || path == "/project"@ || path == "/member"@ || path
        == "/task"@ || path == "/timesheet"@)
}

/// Without a logged-in member, a request reaches only the login page, the
/// login form, the logout, or is sent back to the login page.
pub proof fn law_guest_reaches_login_only(method: Seq<char>, path: Seq<char>)
    ensures
        ({
            let r = route_of(method, path, None);
            r == Route::LoginPage || r == Route::LoginSubmit || r == Route::Logout || r == Route::ToLogin
        }),
        !(method == "GET"@ && path == "/login"@) && !(method == "POST"@ && path == "/login"@)
            && !(method == "GET"@ && path == "/logout"@) ==> route_of(method, path, None) == Route::ToLogin,
{
}

/// A logged-in member is never sent back to the login page.
pub proof fn law_member_not_sent_to_login(method: Seq<char>, path: Seq<char>, role: Role)
    ensures
        route_of(method, path, Some(role)) != Route::ToLogin,
{
}

/// Only the manager reaches the dashboard, the projects and the members;
/// only developers and testers book hours; developers and testers are routed
/// alike; and where the manager and another role are routed apart, one of
/// them is refused.
pub proof fn law_role_routes(method: Seq<char>, path: Seq<char>, role: Role)
    ensures
        role != Role::Pm ==> {
            let r = route_of(method, path, Some(role));
            &&& r != Route::Dashboard
            &&& r != Route::Projects
            &&& r != Route::CreateProject
            &&& r != Route::Members
            &&& r != Route::CreateMember
        },
        route_of(method, path, Some(Role::Pm)) != Route::TimesheetForm,
        route_of(method, path, Some(Role::Pm)) != Route::AddTimesheet,
        route_of(method, path, Some(Role::Dev)) == route_of(method, path, Some(Role::Qa)),
        route_of(method, path, Some(Role::Pm)) != route_of(method, path, Some(role)) ==> route_of(
            method,
            path,
            Some(Role::Pm),
        ) == Route::Forbidden || route_of(method, path, Some(role)) == Route::Forbidden,
{
}

/// A request without a logged-in member, other than the login page, the
/// login form and the logout, is sent to the login page and changes nothing.
pub proof fn law_guest_sent_to_login(
    req: HttpRequest,
    store: Store,
    store_after: Store,
    sessions: SessionTable,
    sessions_after: SessionTable,
    failures: LoginFailures,
    failures_after: LoginFailures,
    now: u64,
    nanos: u128,
    numbers: FormNumbers,
    texts: PageTexts,
    res: Seq<char>,
    saved: bool,
)
    requires
        dispatch_outcome(req, store, store_after, sessions, sessions_after, failures, failures_after, now, nanos, numbers, texts, res, saved),
        member_of_request(req, store, sessions, now) is None,
        !(req.method@ == "GET"@ && req.path@ == "/login"@),
        !(req.method@ == "POST"@ && req.path@ == "/login"@),
        !(req.method@ == "GET"@ && req.path@ == "/logout"@),
    ensures
        res == redirect_text("/login"@),
        !saved,
        store_after == store,
        sessions_after == sessions,
        failures_after.records() == failures.records(),
{
}

/// A member asking for what the member's role may not have (a manager-only
/// page or action by someone else, booking hours by the manager) gets the
/// `403` page, and nothing changes.
pub proof fn law_role_forbidden(
    req: HttpRequest,
    store: Store,
    store_after: Store,
    sessions: SessionTable,
    sessions_after: SessionTable,
    failures: LoginFailures,
    failures_after: LoginFailures,
    now: u64,
    nanos: u128,
    numbers: FormNumbers,
    texts: PageTexts,
    res: Seq<char>,
    saved: bool,
)
    requires
        dispatch_outcome(req, store, store_after, sessions, sessions_after, failures, failures_after, now, nanos, numbers, texts, res, saved),
        member_of_request(req, store, sessions, now) matches Some(m) && {
            ||| m.role != Role::Pm && ((req.method@ == "GET"@ && req.path@ == "/dashboard"@) || (req.method@
                == "GET"@ && req.path@ == "/projects"@) || (req.method@ == "POST"@ && req.path@ == "/project"@)
                || (req.method@ == "GET"@ && req.path@ == "/members"@) || (req.method@ == "POST"@ && req.path@
                == "/member"@))
            ||| m.role == Role::Pm && (req.method@ == "GET"@ || req.method@ == "POST"@) && req.path@
                == "/timesheet"@
        },
    ensures
        res == response_text(403, HTML@, error_text(forbidden_text())),
        !saved,
        store_after == store,
        sessions_after == sessions,
        failures_after.records() == failures.records(),
{
    lemma_route_literals();
    let m = member_of_request(req, store, sessions, now)->0;
    assert(route_of(req.method@, req.path@, Some(m.role)) == Route::Forbidden);
}

/// A logged-in member's `GET` of a page that the member's role may have is
/// answered `200`; a request outside the route table is answered with the
/// `404` page. Neither changes anything.
pub proof fn law_pages_answered(
    req: HttpRequest,
    store: Store,
    store_after: Store,
    sessions: SessionTable,
    sessions_after: SessionTable,
    failures: LoginFailures,
    failures_after: LoginFailures,
    now: u64,
    nanos: u128,
    numbers: FormNumbers,
    texts: PageTexts,
    res: Seq<char>,
    saved: bool,
)
    requires
        dispatch_outcome(req, store, store_after, sessions, sessions_after, failures, failures_after, now, nanos, numbers, texts, res, saved),
        member_of_request(req, store, sessions, now) is Some,
    ensures
        ({
            let m = member_of_request(req, store, sessions, now)->0;
            req.method@ == "GET"@ && {
                ||| req.path@ == "/"@ || req.path@ == "/tasks"@ || req.path@ == "/my"@
                ||| req.path@ == "/timesheet"@ && m.role != Role::Pm
                ||| m.role == Role::Pm && (req.path@ == "/dashboard"@ || req.path@ == "/projects"@ || req.path@
                    == "/members"@)
            }
        }) ==> (exists|body: Seq<char>| res == response_text(200, HTML@, body)) && !saved && store_after
            == store && sessions_after == sessions,
        !known_request(req.method@, req.path@) ==> res == response_text(404, HTML@, error_text(not_found_text()))
            && !saved && store_after == store && sessions_after == sessions,
{
    lemma_route_literals();
}

/// After a logout, the same cookie logs no one in.
pub proof fn law_logout_ends_login(
    req: HttpRequest,
    store: Store,
    sessions: SessionTable,
    sessions_after: SessionTable,
    res: Seq<char>,
    now: u64,
)
    requires
        logout_outcome(req, sessions, sessions_after, res),
    ensures
        member_of_request(req, store, sessions_after, now) is None,
{
}

/// While a user name is locked, even the right password logs no one in:
/// the answer is the login page with the lock message and no session.
pub proof fn law_locked_login_refused(
    req: HttpRequest,
    store: Store,
    sessions: SessionTable,
    sessions_after: SessionTable,
    failures: LoginFailures,
    failures_after: LoginFailures,
    nanos: u128,
    now: u64,
    res: Seq<char>,
)
    requires
        login_outcome(req, store, sessions, sessions_after, failures, failures_after, nanos, now, res),
        locked_out(failures.records(), param_or_empty(req, "username"@), now),
    ensures
        res == response_text(200, HTML@, login_text(Some(locked_text()))),
        sessions_after.sessions() == sessions.sessions(),
{
}

/// After a successful login, a request whose cookie carries the new token
/// is made by the member who logged in, for as long as the session lives.
pub proof fn law_login_then_logged_in(
    req: HttpRequest,
    store: Store,
    sessions: SessionTable,
    sessions_after: SessionTable,
    failures: LoginFailures,
    failures_after: LoginFailures,
    nanos: u128,
    now: u64,
    res: Seq<char>,
    id: u32,
    next: HttpRequest,
    later: u64,
)
    requires
        login_outcome(req, store, sessions, sessions_after, failures, failures_after, nanos, now, res),
        !locked_out(failures.records(), param_or_empty(req, "username"@), now),
        login_member(store, param_or_empty(req, "username"@), param_or_empty(req, "password"@)) == Some(id),
        cookie_token(next.cookie@) == Some(session_token(nanos, id, sessions.counter())),
        elapsed(later, now) < sessions.ttl(),
    ensures
        member_of_request(next, store, sessions_after, later) matches Some(m) && m.id == id,
{
    let ms = store.members@;
    lemma_first_where_props(ms, has_username(param_or_empty(req, "username"@)));
    let k = first_where(ms, has_username(param_or_empty(req, "username"@)));
    assert(ms[k as int].id == id);
    lemma_first_where_props(ms, member_id_is(id));
    assert(first_where(ms, member_id_is(id)) <= k);
    if first_where(ms, member_id_is(id)) == ms.len() {
        assert(!member_id_is(id)(ms[k as int]));
    }
}

} // verus!
