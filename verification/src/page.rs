//! HTML pages: the login page, the shared layout, the home page, the
//! dashboard, and the project, task, timesheet, member and "my work" pages.
//!
//! Numbers with decimals (hours, rates, amounts, percentages) are printed by
//! the caller, which hands the pages their text.

use vstd::prelude::*;
use vstd::string::StringExecFns;
use crate::http::{escape_html, push_escaped};
use crate::model::{Member, Project, Role, Task, Timesheet, role_name};
use crate::model::consts::{T_DOING, T_DONE, T_TODO};
use crate::store::{Store, find_first, overdue_of, load_ids, member_id_is, member_name_or_empty, project_id_is, task_id_is, tasks_done_in, tasks_in};
use crate::text::{chars_eq, chars_eq_str, chars_of, decimal, eq_ignore_ascii_case, eq_ignore_ascii_case_str, push_decimal};

pub mod literals;

use self::literals::{DASH_LOAD_HEAD, DASH_LOAD_ROW_0, DASH_LOAD_ROW_1, DASH_LOAD_ROW_2, DASH_LOAD_ROW_3, DASH_NO_PROJECT, DASH_OVERDUE_HEAD, DASH_OVERDUE_ROW_0, DASH_OVERDUE_ROW_1, DASH_OVERDUE_ROW_2, DASH_OVERDUE_ROW_3, DASH_PROJECT_HEAD, DASH_PROJECT_ROW_0, DASH_PROJECT_ROW_1, DASH_PROJECT_ROW_2, DASH_PROJECT_ROW_3, DASH_PROJECT_ROW_4, DASH_PROJECT_ROW_5, DASH_PROJECT_ROW_6, DASH_PROJECT_ROW_7, DASH_PROJECT_ROW_8, DASH_PROJECT_ROW_9, ERROR_PAGE_0, ERROR_PAGE_1, LAYOUT_0, LAYOUT_1, LAYOUT_2, LAYOUT_3, LAYOUT_4, LAYOUT_5, LAYOUT_6, LOGIN_0, LOGIN_1, MEMBERS_FORM, MEMBERS_HEAD, MEMBERS_NONE, MEMBERS_ROW_0, MEMBERS_ROW_1, MEMBERS_ROW_2, MEMBERS_ROW_3, MEMBERS_ROW_4, MEMBERS_ROW_5, MY_HOURS_HEAD, MY_HOURS_NONE, MY_HOURS_ROW_0, MY_HOURS_ROW_1, MY_HOURS_ROW_2, MY_HOURS_ROW_3, MY_HOURS_ROW_4, MY_TASKS_HEAD, MY_TASKS_NONE, MY_TASKS_ROW_0, MY_TASKS_ROW_1, MY_TASKS_ROW_2, MY_TASKS_ROW_3, MY_TASKS_ROW_4, MY_TASKS_ROW_5, PROJECTS_FORM, PROJECTS_HEAD, PROJECTS_NONE, PROJECTS_ROW_0, PROJECTS_ROW_1, PROJECTS_ROW_2, PROJECTS_ROW_3, PROJECTS_ROW_4, PROJECTS_ROW_5, PROJECTS_ROW_6, STATUS_OPTION_0, STATUS_OPTION_1, STATUS_OPTION_2, STATUS_OPTION_3, TASKS_FORM, TASKS_HEAD, TASKS_NONE, TASKS_ROW_0, TASKS_ROW_1, TASKS_ROW_2, TASKS_ROW_3, TASKS_ROW_4, TASKS_ROW_5, TASKS_ROW_6, TASKS_ROW_7, TASKS_ROW_8, TASKS_ROW_9, TIMESHEET_FORM_HEAD, TIMESHEET_FORM_TAIL, TIMESHEET_NO_WARNING, TIMESHEET_TASK_OPTION_0, TIMESHEET_TASK_OPTION_1, TIMESHEET_TASK_OPTION_2, TIMESHEET_WARNING_0, TIMESHEET_WARNING_1, TIMESHEET_WARNING_2, TIMESHEET_WARNING_3, TIMESHEET_WARN_HEAD};

verus! {

/// Opening of a card.
pub const CARD: &'static str = "<div class='card'>";
/// End of a table.
pub const TABLE_END: &'static str = "</table>";
/// End of a card.
pub const CARD_END: &'static str = "</div>";

/// The view of an optional text.
pub open spec fn opt_view(o: Option<&str>) -> Option<Seq<char>> {
    match o {
        Some(s) => Some(s@),
        None => None,
    }
}

// ------------------------------------------------------------------
// Flash message, layout, login and error pages
// ------------------------------------------------------------------

/// An operation notice, escaped (nothing when there is none).
pub open spec fn flash_text(flash: Option<Seq<char>>) -> Seq<char> {
    match flash {
        Some(m) => "<p class='warning'>"@ + escape_html(m) + "</p>"@,
        None => Seq::empty(),
    }
}

fn flash_html(flash: Option<&str>) -> (res: String)
    ensures
        res@ == flash_text(opt_view(flash)),
{
    let mut out = String::new();
    match flash {
        Some(message) => {
            out.append("<p class='warning'>");
            push_escaped(&mut out, message);
            out.append("</p>");
        },
        None => {},
    }
    assert(out@ =~= flash_text(opt_view(flash)));
    out
}

/// Whether a role name gives the manager's links.
pub open spec fn is_manager_role(role: Seq<char>) -> bool {
    role == "项目经理"@ || eq_ignore_ascii_case(role, "pm"@)
}

/// The navigation bar: links for everyone, the manager's links, logout.
pub open spec fn nav_text(role: Seq<char>) -> Seq<char> {
    "<a href='/'>首页</a> | "@ + "<a href='/tasks'>任务管理</a> | "@ + "<a href='/timesheet'>工时登记</a> | "@
        + "<a href='/my'>我的工作台</a> | "@ + (if is_manager_role(role) {
        "<a href='/dashboard'>管理仪表盘</a> | "@ + "<a href='/projects'>项目管理</a> | "@
            + "<a href='/members'>成员管理</a> | "@
    } else {
        Seq::empty()
    }) + "<a href='/logout'>退出登录</a>"@
}

/// The layout of every page after login: title, current user and role,
/// navigation, heading and content; all texts but the content are escaped.
pub open spec fn layout_text(title: Seq<char>, member_name: Seq<char>, role: Seq<char>, content: Seq<char>) -> Seq<char> {
    LAYOUT_0@ + escape_html(title) + LAYOUT_1@ + escape_html(member_name) + LAYOUT_2@ + escape_html(role)
        + LAYOUT_3@ + nav_text(role) + LAYOUT_4@ + escape_html(title) + LAYOUT_5@ + content
        + LAYOUT_6@
}

/// The layout shared by the pages after login.
pub fn layout(title: &str, member_name: &str, role: &str, content: &str) -> (res: String)
    ensures
        res@ == layout_text(title@, member_name@, role@, content@),
{
    let mut nav = String::new();
    nav.append("<a href='/'>首页</a> | ");
    nav.append("<a href='/tasks'>任务管理</a> | ");
    nav.append("<a href='/timesheet'>工时登记</a> | ");
    nav.append("<a href='/my'>我的工作台</a> | ");
    let rc = chars_of(role);
    if chars_eq_str(rc.as_slice(), "项目经理") || eq_ignore_ascii_case_str(rc.as_slice(), "pm") {
        nav.append("<a href='/dashboard'>管理仪表盘</a> | ");
        nav.append("<a href='/projects'>项目管理</a> | ");
        nav.append("<a href='/members'>成员管理</a> | ");
    }
    nav.append("<a href='/logout'>退出登录</a>");
    assert(nav@ =~= nav_text(role@));
    let mut out = String::new();
    out.append(LAYOUT_0);
    push_escaped(&mut out, title);
    out.append(LAYOUT_1);
    push_escaped(&mut out, member_name);
    out.append(LAYOUT_2);
    push_escaped(&mut out, role);
    out.append(LAYOUT_3);
    out.append(nav.as_str());
    out.append(LAYOUT_4);
    push_escaped(&mut out, title);
    out.append(LAYOUT_5);
    out.append(content);
    out.append(LAYOUT_6);
    assert(out@ =~= layout_text(title@, member_name@, role@, content@));
    out
}

/// The login page, with an escaped error message when there is one.
pub open spec fn login_text(error: Option<Seq<char>>) -> Seq<char> {
    LOGIN_0@ + (match error {
        Some(m) => "<p class='danger'>"@ + escape_html(m) + "</p>"@,
        None => Seq::empty(),
    }) + LOGIN_1@
}

/// The login page.
pub fn login_page(error: Option<&str>) -> (res: String)
    ensures
        res@ == login_text(opt_view(error)),
{
    let mut out = String::new();
    out.append(LOGIN_0);
    match error {
        Some(message) => {
            out.append("<p class='danger'>");
            push_escaped(&mut out, message);
            out.append("</p>");
        },
        None => {},
    }
    out.append(LOGIN_1);
    assert(out@ =~= login_text(opt_view(error)));
    out
}

/// The error page, with the message escaped.
pub open spec fn error_text(message: Seq<char>) -> Seq<char> {
    ERROR_PAGE_0@ + escape_html(message) + ERROR_PAGE_1@
}

/// The error page.
pub fn error_page(message: &str) -> (res: String)
    ensures
        res@ == error_text(message@),
{
    let mut out = String::new();
    out.append(ERROR_PAGE_0);
    push_escaped(&mut out, message);
    out.append(ERROR_PAGE_1);
    assert(out@ =~= error_text(message@));
    out
}

// ------------------------------------------------------------------
// Home page
// ------------------------------------------------------------------

/// The content of the home page: links by role.
pub open spec fn home_content(is_pm: bool) -> Seq<char> {
    CARD@ + "<h3>欢迎回来</h3>"@ + "<p>请选择需要使用的功能。</p>"@ + (if is_pm {
        "<p><a href='/dashboard'>进入管理仪表盘</a></p>"@ + "<p><a href='/projects'>项目管理</a></p>"@
            + "<p><a href='/members'>成员管理</a></p>"@
    } else {
        Seq::empty()
    }) + "<p><a href='/tasks'>查看任务</a></p>"@ + "<p><a href='/my'>查看我的工作台</a></p>"@ + (if !is_pm {
        "<p><a href='/timesheet'>登记工时</a></p>"@
    } else {
        Seq::empty()
    }) + CARD_END@
}

/// The home page: the manager sees the management links; the others see
/// the link to book hours.
pub fn home_html(member: &Member) -> (res: String)
    ensures
        res@ == layout_text("首页"@, member.name@, role_name(member.role), home_content(member.role == Role::Pm)),
{
    let role = member.role.as_str();
    let is_pm = member.role.is_pm();
    let mut content = String::new();
    content.append(CARD);
    content.append("<h3>欢迎回来</h3>");
    content.append("<p>请选择需要使用的功能。</p>");
    if is_pm {
        content.append("<p><a href='/dashboard'>进入管理仪表盘</a></p>");
        content.append("<p><a href='/projects'>项目管理</a></p>");
        content.append("<p><a href='/members'>成员管理</a></p>");
    }
    content.append("<p><a href='/tasks'>查看任务</a></p>");
    content.append("<p><a href='/my'>查看我的工作台</a></p>");
    if !is_pm {
        content.append("<p><a href='/timesheet'>登记工时</a></p>");
    }
    content.append(CARD_END);
    assert(content@ =~= home_content(is_pm));
    layout("首页", member.name.as_str(), role, content.as_str())
}

// ------------------------------------------------------------------
// Task status menu
// ------------------------------------------------------------------

/// One option of the status menu, selected when it is the current status.
pub open spec fn status_option(status: Seq<char>, current: Seq<char>) -> Seq<char> {
    STATUS_OPTION_0@ + escape_html(status) + STATUS_OPTION_1@ + (if status == current {
        " selected"@
    } else {
        Seq::empty()
    }) + STATUS_OPTION_2@ + escape_html(status) + STATUS_OPTION_3@
}

/// The status menu: to do, in progress, done.
pub open spec fn status_options_text(current: Seq<char>) -> Seq<char> {
    status_option(T_TODO@, current) + status_option(T_DOING@, current) + status_option(T_DONE@, current)
}

fn push_status_option(out: &mut String, status: &str, current: &[char])
    ensures
        final(out)@ == old(out)@ + status_option(status@, current@),
{
    let sc = chars_of(status);
    out.append(STATUS_OPTION_0);
    push_escaped(out, status);
    out.append(STATUS_OPTION_1);
    if chars_eq(sc.as_slice(), current) {
        out.append(" selected");
    }
    out.append(STATUS_OPTION_2);
    push_escaped(out, status);
    out.append(STATUS_OPTION_3);
    assert(final(out)@ =~= old(out)@ + status_option(status@, current@)) by {
        assert(sc@ == status@);
    }
}

fn status_options(current: &str) -> (res: String)
    ensures
        res@ == status_options_text(current@),
{
    let cc = chars_of(current);
    let mut out = String::new();
    push_status_option(&mut out, T_TODO, cc.as_slice());
    push_status_option(&mut out, T_DOING, cc.as_slice());
    push_status_option(&mut out, T_DONE, cc.as_slice());
    assert(out@ =~= status_options_text(current@));
    out
}

// ------------------------------------------------------------------
// Projects page
// ------------------------------------------------------------------

/// `acc` followed by a row of the project table; `budget` is the budget
/// printed with two decimals.
pub open spec fn project_row_after(acc: Seq<char>, p: Project, budget: Seq<char>) -> Seq<char> {
    acc + PROJECTS_ROW_0@ + escape_html(p.name@) + PROJECTS_ROW_1@ + escape_html(p.desc@)
        + PROJECTS_ROW_2@ + budget + PROJECTS_ROW_3@ + escape_html(p.start@) + PROJECTS_ROW_4@
        + escape_html(p.deadline@) + PROJECTS_ROW_5@ + escape_html(p.status@) + PROJECTS_ROW_6@
}

/// `acc` followed by the rows of the project table, the `i`-th with the
/// `i`-th budget text.
pub open spec fn project_rows_after(acc: Seq<char>, ps: Seq<Project>, budgets: Seq<String>) -> Seq<char>
    decreases ps.len(),
{
    if ps.len() == 0 {
        acc
    } else {
        project_row_after(
            project_rows_after(acc, ps.drop_last(), budgets),
            ps.last(),
            budgets[ps.len() - 1]@,
        )
    }
}

/// The content of the project page.
pub open spec fn projects_content(ps: Seq<Project>, flash: Option<Seq<char>>, budgets: Seq<String>) -> Seq<char> {
    let rows = project_rows_after(
        flash_text(flash) + CARD@ + "<h3>已有项目</h3>"@ + PROJECTS_HEAD@,
        ps,
        budgets,
    );
    (if ps.len() == 0 {
        rows + PROJECTS_NONE@
    } else {
        rows
    }) + TABLE_END@ + CARD_END@ + PROJECTS_FORM@
}

fn push_project_row(out: &mut String, p: &Project, budget: &str)
    ensures
        final(out)@ == project_row_after(old(out)@, *p, budget@),
{
    out.append(PROJECTS_ROW_0);
    push_escaped(out, p.name.as_str());
    out.append(PROJECTS_ROW_1);
    push_escaped(out, p.desc.as_str());
    out.append(PROJECTS_ROW_2);
    out.append(budget);
    out.append(PROJECTS_ROW_3);
    push_escaped(out, p.start.as_str());
    out.append(PROJECTS_ROW_4);
    push_escaped(out, p.deadline.as_str());
    out.append(PROJECTS_ROW_5);
    push_escaped(out, p.status.as_str());
    out.append(PROJECTS_ROW_6);
}

/// The project list and the form that creates a project; `budgets[i]` is the
/// budget of the `i`-th project printed with two decimals.
pub fn projects_html(store: &Store, flash: Option<&str>, budgets: &Vec<String>) -> (res: String)
    requires
        budgets@.len() == store.projects@.len(),
    ensures
        res@ == layout_text("项目管理"@, "项目经理"@, "项目经理"@, projects_content(store.projects@, opt_view(flash), budgets@)),
{
    let mut content = flash_html(flash);
    content.append(CARD);
    content.append("<h3>已有项目</h3>");
    content.append(PROJECTS_HEAD);
    let ghost start = content@;
    let ghost ps = store.projects@;
    let n = store.projects.len();
    let mut i: usize = 0;
    assert(ps.take(0) =~= Seq::<Project>::empty());
    while i < n
        invariant
            n == ps.len(),
            ps == store.projects@,
            budgets@.len() == n,
            i <= n,
            content@ == project_rows_after(start, ps.take(i as int), budgets@),
        decreases n - i,
    {
        push_project_row(&mut content, &store.projects[i], budgets[i].as_str());
        proof {
            assert(ps.take(i + 1).drop_last() =~= ps.take(i as int));
            assert(ps.take(i + 1).last() == ps[i as int]);
        }
        i = i + 1;
    }
    assert(ps.take(n as int) =~= ps);
    if n == 0 {
        content.append(PROJECTS_NONE);
    }
    content.append(TABLE_END);
    content.append(CARD_END);
    content.append(PROJECTS_FORM);
    layout("项目管理", "项目经理", "项目经理", content.as_str())
}

// ------------------------------------------------------------------
// Tasks page
// ------------------------------------------------------------------

/// The project cell of a task row: the escaped name of the first project
/// with the id, or `未知项目`.
pub open spec fn project_name_cell(projects: Seq<Project>, project_id: u32) -> Seq<char> {
    match find_first(projects, project_id_is(project_id)) {
        Some(p) => escape_html(p.name@),
        None => "未知项目"@,
    }
}

/// The assignee cell of a task row: the escaped name of the first member
/// with the id, or `未分配`.
pub open spec fn assignee_cell(members: Seq<Member>, assignee: Option<u32>) -> Seq<char> {
    match assignee {
        Some(id) => match find_first(members, member_id_is(id)) {
            Some(m) => escape_html(m.name@),
            None => "未分配"@,
        },
        None => "未分配"@,
    }
}

/// `acc` followed by a row of the task table, with the form that changes
/// the task's status; `estimate` is the estimate printed with one decimal.
pub open spec fn task_row_after(acc: Seq<char>, t: Task, projects: Seq<Project>, members: Seq<Member>, estimate: Seq<char>) -> Seq<char> {
    acc + TASKS_ROW_0@ + escape_html(t.title@) + TASKS_ROW_1@ + project_name_cell(projects, t.project_id)
        + TASKS_ROW_2@ + assignee_cell(members, t.assignee) + TASKS_ROW_3@ + escape_html(t.priority@)
        + TASKS_ROW_4@ + escape_html(t.status@) + TASKS_ROW_5@ + estimate + TASKS_ROW_6@
        + escape_html(t.deadline@) + TASKS_ROW_7@ + decimal(t.id as nat) + TASKS_ROW_8@
        + status_options_text(t.status@) + TASKS_ROW_9@
}

/// `acc` followed by the rows of the task table, the `i`-th with the `i`-th
/// estimate text.
pub open spec fn task_rows_after(acc: Seq<char>, ts: Seq<Task>, projects: Seq<Project>, members: Seq<Member>, estimates: Seq<String>) -> Seq<char>
    decreases ts.len(),
{
    if ts.len() == 0 {
        acc
    } else {
        task_row_after(
            task_rows_after(acc, ts.drop_last(), projects, members, estimates),
            ts.last(),
            projects,
            members,
            estimates[ts.len() - 1]@,
        )
    }
}

/// The over-estimate warnings of the task page: a card with them, when
/// there is one.
pub open spec fn task_warnings_text(acc: Seq<char>, tasks: Seq<Task>, ws: Seq<Option<(String, String)>>) -> Seq<char> {
    if any_warning(ws) {
        warnings_after(acc + TIMESHEET_WARN_HEAD@, tasks, ws) + CARD_END@
    } else {
        acc
    }
}

/// The content of the task page: the task list, the over-estimate warnings
/// (`ws[i]` for the `i`-th task, as on the timesheet page), and the form.
pub open spec fn tasks_content(
    store: Store,
    flash: Option<Seq<char>>,
    estimates: Seq<String>,
    ws: Seq<Option<(String, String)>>,
) -> Seq<char> {
    let rows = task_rows_after(
        flash_text(flash) + CARD@ + "<h3>任务列表</h3>"@ + TASKS_HEAD@,
        store.tasks@,
        store.projects@,
        store.members@,
        estimates,
    );
    task_warnings_text(
        (if store.tasks@.len() == 0 {
            rows + TASKS_NONE@
        } else {
            rows
        }) + TABLE_END@ + CARD_END@,
        store.tasks@,
        ws,
    ) + TASKS_FORM@
}

fn push_task_row(out: &mut String, store: &Store, t: &Task, estimate: &str)
    ensures
        final(out)@ == task_row_after(old(out)@, *t, store.projects@, store.members@, estimate@),
{
    out.append(TASKS_ROW_0);
    push_escaped(out, t.title.as_str());
    out.append(TASKS_ROW_1);
    let ghost a1 = out@;
    match store.project_by_id(t.project_id) {
        Some(p) => push_escaped(out, p.name.as_str()),
        None => out.append("未知项目"),
    }
    assert(out@ == a1 + project_name_cell(store.projects@, t.project_id));
    out.append(TASKS_ROW_2);
    let ghost a2 = out@;
    let member = match t.assignee {
        Some(id) => store.member_by_id(id),
        None => None,
    };
    match member {
        Some(m) => push_escaped(out, m.name.as_str()),
        None => out.append("未分配"),
    }
    assert(out@ == a2 + assignee_cell(store.members@, t.assignee));
    out.append(TASKS_ROW_3);
    push_escaped(out, t.priority.as_str());
    out.append(TASKS_ROW_4);
    push_escaped(out, t.status.as_str());
    out.append(TASKS_ROW_5);
    out.append(estimate);
    out.append(TASKS_ROW_6);
    push_escaped(out, t.deadline.as_str());
    out.append(TASKS_ROW_7);
    push_decimal(out, t.id as u128);
    out.append(TASKS_ROW_8);
    let opts = status_options(t.status.as_str());
    out.append(opts.as_str());
    out.append(TASKS_ROW_9);
}

/// The task list (each row with a status form) and the form that creates a
/// task; `estimates[i]` is the estimate of the `i`-th task printed with one
/// decimal, and `warnings[i]` its over-estimate warning, as on the timesheet page.
pub fn tasks_html(
    store: &Store,
    flash: Option<&str>,
    estimates: &Vec<String>,
    warnings: &Vec<Option<(String, String)>>,
) -> (res: String)
    requires
        estimates@.len() == store.tasks@.len(),
        warnings@.len() == store.tasks@.len(),
    ensures
        res@ == layout_text(
            "任务管理"@,
            "成员"@,
            "成员"@,
            tasks_content(*store, opt_view(flash), estimates@, warnings@),
        ),
{
    let mut content = flash_html(flash);
    content.append(CARD);
    content.append("<h3>任务列表</h3>");
    content.append(TASKS_HEAD);
    let ghost start = content@;
    let ghost ts = store.tasks@;
    let n = store.tasks.len();
    let mut i: usize = 0;
    assert(ts.take(0) =~= Seq::<Task>::empty());
    while i < n
        invariant
            n == ts.len(),
            ts == store.tasks@,
            estimates@.len() == n,
            i <= n,
            content@ == task_rows_after(start, ts.take(i as int), store.projects@, store.members@, estimates@),
        decreases n - i,
    {
        push_task_row(&mut content, store, &store.tasks[i], estimates[i].as_str());
        proof {
            assert(ts.take(i + 1).drop_last() =~= ts.take(i as int));
            assert(ts.take(i + 1).last() == ts[i as int]);
        }
        i = i + 1;
    }
    assert(ts.take(n as int) =~= ts);
    if n == 0 {
        content.append(TASKS_NONE);
    }
    content.append(TABLE_END);
    content.append(CARD_END);
    if has_warning(warnings) {
        content.append(TIMESHEET_WARN_HEAD);
        push_warnings(&mut content, &store.tasks, warnings);
        content.append(CARD_END);
    }
    content.append(TASKS_FORM);
    layout("任务管理", "成员", "成员", content.as_str())
}

// ------------------------------------------------------------------
// Members page
// ------------------------------------------------------------------

/// `acc` followed by a row of the member table; `rate` is the hourly rate
/// printed with two decimals.
pub open spec fn member_row_after(acc: Seq<char>, m: Member, rate: Seq<char>) -> Seq<char> {
    acc + MEMBERS_ROW_0@ + decimal(m.id as nat) + MEMBERS_ROW_1@ + escape_html(m.username@)
        + MEMBERS_ROW_2@ + escape_html(m.name@) + MEMBERS_ROW_3@ + escape_html(role_name(m.role))
        + MEMBERS_ROW_4@ + rate + MEMBERS_ROW_5@
}

/// `acc` followed by the rows of the member table, the `i`-th with the
/// `i`-th rate text.
pub open spec fn member_rows_after(acc: Seq<char>, ms: Seq<Member>, rates: Seq<String>) -> Seq<char>
    decreases ms.len(),
{
    if ms.len() == 0 {
        acc
    } else {
        member_row_after(member_rows_after(acc, ms.drop_last(), rates), ms.last(), rates[ms.len() - 1]@)
    }
}

/// The content of the member page.
pub open spec fn members_content(ms: Seq<Member>, flash: Option<Seq<char>>, rates: Seq<String>) -> Seq<char> {
    let rows = member_rows_after(
        flash_text(flash) + CARD@ + "<h3>成员列表</h3>"@ + MEMBERS_HEAD@,
        ms,
        rates,
    );
    (if ms.len() == 0 {
        rows + MEMBERS_NONE@
    } else {
        rows
    }) + TABLE_END@ + CARD_END@ + MEMBERS_FORM@
}

fn push_member_row(out: &mut String, m: &Member, rate: &str)
    ensures
        final(out)@ == member_row_after(old(out)@, *m, rate@),
{
    out.append(MEMBERS_ROW_0);
    push_decimal(out, m.id as u128);
    out.append(MEMBERS_ROW_1);
    push_escaped(out, m.username.as_str());
    out.append(MEMBERS_ROW_2);
    push_escaped(out, m.name.as_str());
    out.append(MEMBERS_ROW_3);
    push_escaped(out, m.role.as_str());
    out.append(MEMBERS_ROW_4);
    out.append(rate);
    out.append(MEMBERS_ROW_5);
}

/// The member list and the form that adds a member; `rates[i]` is the rate
/// of the `i`-th member printed with two decimals.
pub fn members_html(store: &Store, flash: Option<&str>, rates: &Vec<String>) -> (res: String)
    requires
        rates@.len() == store.members@.len(),
    ensures
        res@ == layout_text("成员管理"@, "项目经理"@, "项目经理"@, members_content(store.members@, opt_view(flash), rates@)),
{
    let mut content = flash_html(flash);
    content.append(CARD);
    content.append("<h3>成员列表</h3>");
    content.append(MEMBERS_HEAD);
    let ghost start = content@;
    let ghost ms = store.members@;
    let n = store.members.len();
    let mut i: usize = 0;
    assert(ms.take(0) =~= Seq::<Member>::empty());
    while i < n
        invariant
            n == ms.len(),
            ms == store.members@,
            rates@.len() == n,
            i <= n,
            content@ == member_rows_after(start, ms.take(i as int), rates@),
        decreases n - i,
    {
        push_member_row(&mut content, &store.members[i], rates[i].as_str());
        proof {
            assert(ms.take(i + 1).drop_last() =~= ms.take(i as int));
            assert(ms.take(i + 1).last() == ms[i as int]);
        }
        i = i + 1;
    }
    assert(ms.take(n as int) =~= ms);
    if n == 0 {
        content.append(MEMBERS_NONE);
    }
    content.append(TABLE_END);
    content.append(CARD_END);
    content.append(MEMBERS_FORM);
    layout("成员管理", "项目经理", "项目经理", content.as_str())
}

// ------------------------------------------------------------------
// "My work" page
// ------------------------------------------------------------------

/// `acc` followed by a row of my tasks; `estimate` is printed with one decimal.
pub open spec fn my_task_row_after(acc: Seq<char>, t: Task, estimate: Seq<char>) -> Seq<char> {
    acc + MY_TASKS_ROW_0@ + escape_html(t.title@) + MY_TASKS_ROW_1@ + escape_html(t.priority@)
        + MY_TASKS_ROW_2@ + escape_html(t.status@) + MY_TASKS_ROW_3@ + estimate + MY_TASKS_ROW_4@
        + escape_html(t.deadline@) + MY_TASKS_ROW_5@
}

/// `acc` followed by a row for each task assigned to the member, the
/// `i`-th task with the `i`-th estimate text.
pub open spec fn my_task_rows_after(acc: Seq<char>, ts: Seq<Task>, estimates: Seq<String>, member_id: u32) -> Seq<char>
    decreases ts.len(),
{
    if ts.len() == 0 {
        acc
    } else {
        let prev = my_task_rows_after(acc, ts.drop_last(), estimates, member_id);
        if ts.last().assignee == Some(member_id) {
            my_task_row_after(prev, ts.last(), estimates[ts.len() - 1]@)
        } else {
            prev
        }
    }
}

/// The task cell of a timesheet row: the escaped title of the first task
/// with the id, or `未知任务`.
pub open spec fn task_title_cell(tasks: Seq<Task>, task_id: u32) -> Seq<char> {
    match find_first(tasks, task_id_is(task_id)) {
        Some(t) => escape_html(t.title@),
        None => "未知任务"@,
    }
}

/// `acc` followed by a row of my timesheets; `hours` is printed with one decimal.
pub open spec fn my_hours_row_after(acc: Seq<char>, sheet: Timesheet, tasks: Seq<Task>, hours: Seq<char>) -> Seq<char> {
    acc + MY_HOURS_ROW_0@ + task_title_cell(tasks, sheet.task_id) + MY_HOURS_ROW_1@ + escape_html(
        sheet.date@,
    ) + MY_HOURS_ROW_2@ + hours + MY_HOURS_ROW_3@ + escape_html(sheet.note@) + MY_HOURS_ROW_4@
}

/// `acc` followed by a row for each timesheet of the member, the `i`-th
/// timesheet with the `i`-th hours text.
pub open spec fn my_hours_rows_after(acc: Seq<char>, sheets: Seq<Timesheet>, tasks: Seq<Task>, hours: Seq<String>, member_id: u32) -> Seq<char>
    decreases sheets.len(),
{
    if sheets.len() == 0 {
        acc
    } else {
        let prev = my_hours_rows_after(acc, sheets.drop_last(), tasks, hours, member_id);
        if sheets.last().member_id == member_id {
            my_hours_row_after(prev, sheets.last(), tasks, hours[sheets.len() - 1]@)
        } else {
            prev
        }
    }
}

/// Whether some task is assigned to the member.
pub open spec fn has_task_of(ts: Seq<Task>, member_id: u32) -> bool {
    exists|i: int| 0 <= i < ts.len() && #[trigger] ts[i].assignee == Some(member_id)
}

/// Whether the member booked some hours.
pub open spec fn has_sheet_of(sheets: Seq<Timesheet>, member_id: u32) -> bool {
    exists|i: int| 0 <= i < sheets.len() && #[trigger] sheets[i].member_id == member_id
}

/// The content of the "my work" page: my tasks and my timesheets.
pub open spec fn my_content(store: Store, member_id: u32, estimates: Seq<String>, hours: Seq<String>) -> Seq<char> {
    let a = my_task_rows_after(
        CARD@ + "<h3>我的任务</h3>"@ + MY_TASKS_HEAD@,
        store.tasks@,
        estimates,
        member_id,
    );
    let b = (if !has_task_of(store.tasks@, member_id) {
        a + MY_TASKS_NONE@
    } else {
        a
    }) + TABLE_END@ + CARD_END@ + CARD@ + "<h3>我的工时</h3>"@ + MY_HOURS_HEAD@;
    let c = my_hours_rows_after(b, store.timesheets@, store.tasks@, hours, member_id);
    (if !has_sheet_of(store.timesheets@, member_id) {
        c + MY_HOURS_NONE@
    } else {
        c
    }) + TABLE_END@ + CARD_END@
}

fn push_my_task_row(out: &mut String, t: &Task, estimate: &str)
    ensures
        final(out)@ == my_task_row_after(old(out)@, *t, estimate@),
{
    out.append(MY_TASKS_ROW_0);
    push_escaped(out, t.title.as_str());
    out.append(MY_TASKS_ROW_1);
    push_escaped(out, t.priority.as_str());
    out.append(MY_TASKS_ROW_2);
    push_escaped(out, t.status.as_str());
    out.append(MY_TASKS_ROW_3);
    out.append(estimate);
    out.append(MY_TASKS_ROW_4);
    push_escaped(out, t.deadline.as_str());
    out.append(MY_TASKS_ROW_5);
}

fn push_my_hours_row(out: &mut String, store: &Store, sheet: &Timesheet, hours: &str)
    ensures
        final(out)@ == my_hours_row_after(old(out)@, *sheet, store.tasks@, hours@),
{
    out.append(MY_HOURS_ROW_0);
    let ghost a = out@;
    match store.task_by_id(sheet.task_id) {
        Some(t) => push_escaped(out, t.title.as_str()),
        None => out.append("未知任务"),
    }
    assert(out@ == a + task_title_cell(store.tasks@, sheet.task_id));
    out.append(MY_HOURS_ROW_1);
    push_escaped(out, sheet.date.as_str());
    out.append(MY_HOURS_ROW_2);
    out.append(hours);
    out.append(MY_HOURS_ROW_3);
    push_escaped(out, sheet.note.as_str());
    out.append(MY_HOURS_ROW_4);
}

/// A member's tasks and timesheets; `estimates[i]` is the estimate of the
/// `i`-th task and `hours[i]` the hours of the `i`-th timesheet, printed with
/// one decimal.
pub fn my_page_html(store: &Store, member_id: u32, member_name: &str, estimates: &Vec<String>, hours: &Vec<String>) -> (res: String)
    requires
        estimates@.len() == store.tasks@.len(),
        hours@.len() == store.timesheets@.len(),
    ensures
        res@ == layout_text("我的工作台"@, member_name@, "成员"@, my_content(*store, member_id, estimates@, hours@)),
{
    let mut content = String::new();
    content.append(CARD);
    content.append("<h3>我的任务</h3>");
    content.append(MY_TASKS_HEAD);
    let ghost start = content@;
    let ghost ts = store.tasks@;
    let n = store.tasks.len();
    let mut count: usize = 0;
    let mut i: usize = 0;
    assert(ts.take(0) =~= Seq::<Task>::empty());
    while i < n
        invariant
            n == ts.len(),
            ts == store.tasks@,
            estimates@.len() == n,
            i <= n,
            count <= i,
            (count > 0) == has_task_of(ts.take(i as int), member_id),
            content@ == my_task_rows_after(start, ts.take(i as int), estimates@, member_id),
        decreases n - i,
    {
        let t = &store.tasks[i];
        let mine = match t.assignee {
            Some(a) => a == member_id,
            None => false,
        };
        if mine {
            count = count + 1;
            push_my_task_row(&mut content, t, estimates[i].as_str());
        }
        proof {
            let now = ts.take(i + 1);
            assert(now.drop_last() =~= ts.take(i as int));
            assert(now.last() == ts[i as int]);
            if mine {
                assert(now[i as int].assignee == Some(member_id));
            } else {
                if has_task_of(now, member_id) {
                    let j = choose|j: int| 0 <= j < now.len() && #[trigger] now[j].assignee == Some(member_id);
                    assert(ts.take(i as int)[j] == now[j]);
                }
            }
            if has_task_of(ts.take(i as int), member_id) {
                let j = choose|j: int| 0 <= j < i && #[trigger] ts.take(i as int)[j].assignee == Some(member_id);
                assert(now[j] == ts.take(i as int)[j]);
            }
        }
        i = i + 1;
    }
    assert(ts.take(n as int) =~= ts);
    if count == 0 {
        content.append(MY_TASKS_NONE);
    }
    content.append(TABLE_END);
    content.append(CARD_END);
    content.append(CARD);
    content.append("<h3>我的工时</h3>");
    content.append(MY_HOURS_HEAD);
    let ghost start2 = content@;
    let ghost ss = store.timesheets@;
    let m = store.timesheets.len();
    let mut sheet_count: usize = 0;
    let mut k: usize = 0;
    assert(ss.take(0) =~= Seq::<Timesheet>::empty());
    while k < m
        invariant
            m == ss.len(),
            ss == store.timesheets@,
            hours@.len() == m,
            k <= m,
            sheet_count <= k,
            (sheet_count > 0) == has_sheet_of(ss.take(k as int), member_id),
            content@ == my_hours_rows_after(start2, ss.take(k as int), store.tasks@, hours@, member_id),
        decreases m - k,
    {
        let sheet = &store.timesheets[k];
        let mine = sheet.member_id == member_id;
        if mine {
            sheet_count = sheet_count + 1;
            push_my_hours_row(&mut content, store, sheet, hours[k].as_str());
        }
        proof {
            let now = ss.take(k + 1);
            assert(now.drop_last() =~= ss.take(k as int));
            assert(now.last() == ss[k as int]);
            if mine {
                assert(now[k as int].member_id == member_id);
            } else {
                if has_sheet_of(now, member_id) {
                    let j = choose|j: int| 0 <= j < now.len() && #[trigger] now[j].member_id == member_id;
                    assert(ss.take(k as int)[j] == now[j]);
                }
            }
            if has_sheet_of(ss.take(k as int), member_id) {
                let j = choose|j: int| 0 <= j < k && #[trigger] ss.take(k as int)[j].member_id == member_id;
                assert(now[j] == ss.take(k as int)[j]);
            }
        }
        k = k + 1;
    }
    assert(ss.take(m as int) =~= ss);
    if sheet_count == 0 {
        content.append(MY_HOURS_NONE);
    }
    content.append(TABLE_END);
    content.append(CARD_END);
    layout("我的工作台", member_name, "成员", content.as_str())
}

// ------------------------------------------------------------------
// Timesheet page
// ------------------------------------------------------------------

/// `acc` followed by the option of a task in the timesheet form.
pub open spec fn task_option_after(acc: Seq<char>, t: Task) -> Seq<char> {
    acc + TIMESHEET_TASK_OPTION_0@ + decimal(t.id as nat) + TIMESHEET_TASK_OPTION_1@ + escape_html(t.title@)
        + TIMESHEET_TASK_OPTION_2@
}

/// `acc` followed by an option for each task.
pub open spec fn task_options_after(acc: Seq<char>, ts: Seq<Task>) -> Seq<char>
    decreases ts.len(),
{
    if ts.len() == 0 {
        acc
    } else {
        task_option_after(task_options_after(acc, ts.drop_last()), ts.last())
    }
}

/// `acc` followed by the over-estimate warning of a task, when it has one:
/// `(used, estimate)` are the hours used and the estimate, printed with one decimal.
pub open spec fn warning_after(acc: Seq<char>, t: Task, w: Option<(String, String)>) -> Seq<char> {
    match w {
        Some((used, estimate)) => acc + TIMESHEET_WARNING_0@ + escape_html(t.title@) + TIMESHEET_WARNING_1@
            + used@ + TIMESHEET_WARNING_2@ + estimate@ + TIMESHEET_WARNING_3@,
        None => acc,
    }
}

/// `acc` followed by the warnings of the tasks, the `i`-th task with the `i`-th warning.
pub open spec fn warnings_after(acc: Seq<char>, ts: Seq<Task>, ws: Seq<Option<(String, String)>>) -> Seq<char>
    decreases ts.len(),
{
    if ts.len() == 0 {
        acc
    } else {
        warning_after(warnings_after(acc, ts.drop_last(), ws), ts.last(), ws[ts.len() - 1])
    }
}

/// Whether some task is over its estimate.
pub open spec fn any_warning(ws: Seq<Option<(String, String)>>) -> bool {
    exists|i: int| 0 <= i < ws.len() && #[trigger] ws[i] is Some
}

/// The content of the timesheet page: the form, then the over-estimate warnings.
pub open spec fn timesheet_content(tasks: Seq<Task>, ws: Seq<Option<(String, String)>>) -> Seq<char> {
    let a = task_options_after(TIMESHEET_FORM_HEAD@, tasks) + TIMESHEET_FORM_TAIL@ + TIMESHEET_WARN_HEAD@;
    let b = warnings_after(a, tasks, ws);
    (if !any_warning(ws) {
        b + TIMESHEET_NO_WARNING@
    } else {
        b
    }) + CARD_END@
}

/// The name shown for a member id: the first member's name, or `成员`.
pub open spec fn member_label(members: Seq<Member>, member_id: u32) -> Seq<char> {
    match find_first(members, member_id_is(member_id)) {
        Some(m) => m.name@,
        None => "成员"@,
    }
}

/// The role shown for a member id: the first member's role, or `成员`.
pub open spec fn role_label(members: Seq<Member>, member_id: u32) -> Seq<char> {
    match find_first(members, member_id_is(member_id)) {
        Some(m) => role_name(m.role),
        None => "成员"@,
    }
}

/// Whether some task is over its estimate (see `any_warning`).
fn has_warning(ws: &Vec<Option<(String, String)>>) -> (res: bool)
    ensures
        res == any_warning(ws@),
{
    let mut i: usize = 0;
    while i < ws.len()
        invariant
            i <= ws@.len(),
            forall|j: int| 0 <= j < i ==> !(#[trigger] ws@[j] is Some),
        decreases ws@.len() - i,
    {
        if ws[i].is_some() {
            return true;
        }
        i = i + 1;
    }
    false
}

/// Appends the warnings of the tasks (see `warnings_after`).
fn push_warnings(content: &mut String, tasks: &Vec<Task>, warnings: &Vec<Option<(String, String)>>)
    requires
        warnings@.len() == tasks@.len(),
    ensures
        final(content)@ == warnings_after(old(content)@, tasks@, warnings@),
{
    let ghost start = content@;
    let ghost ts = tasks@;
    let n = tasks.len();
    let mut k: usize = 0;
    assert(ts.take(0) =~= Seq::<Task>::empty());
    while k < n
        invariant
            n == ts.len(),
            ts == tasks@,
            warnings@.len() == n,
            k <= n,
            content@ == warnings_after(start, ts.take(k as int), warnings@),
        decreases n - k,
    {
        let t = &tasks[k];
        match &warnings[k] {
            Some((used, estimate)) => {
                content.append(TIMESHEET_WARNING_0);
                push_escaped(content, t.title.as_str());
                content.append(TIMESHEET_WARNING_1);
                content.append(used.as_str());
                content.append(TIMESHEET_WARNING_2);
                content.append(estimate.as_str());
                content.append(TIMESHEET_WARNING_3);
            },
            None => {},
        }
        proof {
            assert(ts.take(k + 1).drop_last() =~= ts.take(k as int));
            assert(ts.take(k + 1).last() == ts[k as int]);
        }
        k = k + 1;
    }
    assert(ts.take(n as int) =~= ts);
}

/// The timesheet form and the over-estimate warnings: `warnings[i]` holds,
/// for the `i`-th task when its booked hours exceed its estimate, the hours
/// used and the estimate, printed with one decimal.
pub fn timesheet_form_html(store: &Store, member_id: u32, warnings: &Vec<Option<(String, String)>>) -> (res: String)
    requires
        warnings@.len() == store.tasks@.len(),
    ensures
        res@ == layout_text(
            "工时登记"@,
            member_label(store.members@, member_id),
            role_label(store.members@, member_id),
            timesheet_content(store.tasks@, warnings@),
        ),
{
    let member = store.member_by_id(member_id);
    let member_name: &str = match member {
        Some(m) => m.name.as_str(),
        None => "成员",
    };
    let role: &str = match member {
        Some(m) => m.role.as_str(),
        None => "成员",
    };
    let mut content = String::new();
    content.append(TIMESHEET_FORM_HEAD);
    let ghost ts = store.tasks@;
    let n = store.tasks.len();
    let mut i: usize = 0;
    assert(ts.take(0) =~= Seq::<Task>::empty());
    while i < n
        invariant
            n == ts.len(),
            ts == store.tasks@,
            i <= n,
            content@ == task_options_after(TIMESHEET_FORM_HEAD@, ts.take(i as int)),
        decreases n - i,
    {
        let t = &store.tasks[i];
        content.append(TIMESHEET_TASK_OPTION_0);
        push_decimal(&mut content, t.id as u128);
        content.append(TIMESHEET_TASK_OPTION_1);
        push_escaped(&mut content, t.title.as_str());
        content.append(TIMESHEET_TASK_OPTION_2);
        proof {
            assert(ts.take(i + 1).drop_last() =~= ts.take(i as int));
            assert(ts.take(i + 1).last() == ts[i as int]);
        }
        i = i + 1;
    }
    assert(ts.take(n as int) =~= ts);
    content.append(TIMESHEET_FORM_TAIL);
    content.append(TIMESHEET_WARN_HEAD);
    push_warnings(&mut content, &store.tasks, warnings);
    if !has_warning(warnings) {
        content.append(TIMESHEET_NO_WARNING);
    }
    content.append(CARD_END);
    layout("工时登记", member_name, role, content.as_str())
}

// ------------------------------------------------------------------
// Dashboard
// ------------------------------------------------------------------

/// The figures of one project on the dashboard, printed by the caller:
/// progress in percent (one decimal), the class and text of the cost
/// (two decimals), the budget (two decimals), and the class and text of the
/// estimate deviation (sign and one decimal).
#[derive(Debug, Clone)]
pub struct ProjectFigures {
    pub progress: String,
    pub cost_class: String,
    pub cost: String,
    pub budget: String,
    pub deviation_class: String,
    pub deviation: String,
}

/// `acc` followed by a project row of the dashboard: name, tasks done and
/// tasks (as `u32`), then the printed figures.
pub open spec fn dash_project_row_after(acc: Seq<char>, p: Project, tasks: Seq<Task>, f: ProjectFigures) -> Seq<char> {
    acc + DASH_PROJECT_ROW_0@ + escape_html(p.name@) + DASH_PROJECT_ROW_1@ + decimal(
        (tasks_done_in(tasks, p.id) as u32) as nat,
    ) + DASH_PROJECT_ROW_2@ + decimal((tasks_in(tasks, p.id) as u32) as nat) + DASH_PROJECT_ROW_3@
        + f.progress@ + DASH_PROJECT_ROW_4@ + f.cost_class@ + DASH_PROJECT_ROW_5@ + f.cost@
        + DASH_PROJECT_ROW_6@ + f.budget@ + DASH_PROJECT_ROW_7@ + f.deviation_class@
        + DASH_PROJECT_ROW_8@ + f.deviation@ + DASH_PROJECT_ROW_9@
}

/// `acc` followed by the project rows, the `i`-th with the `i`-th figures.
pub open spec fn dash_project_rows_after(acc: Seq<char>, ps: Seq<Project>, tasks: Seq<Task>, fs: Seq<ProjectFigures>) -> Seq<char>
    decreases ps.len(),
{
    if ps.len() == 0 {
        acc
    } else {
        dash_project_row_after(
            dash_project_rows_after(acc, ps.drop_last(), tasks, fs),
            ps.last(),
            tasks,
            fs[ps.len() - 1],
        )
    }
}

/// `acc` followed by a member load row; `hours` is printed with one decimal.
pub open spec fn dash_load_row_after(acc: Seq<char>, id: u32, name: Seq<char>, hours: Seq<char>) -> Seq<char> {
    acc + DASH_LOAD_ROW_0@ + decimal(id as nat) + DASH_LOAD_ROW_1@ + escape_html(name) + DASH_LOAD_ROW_2@
        + hours + DASH_LOAD_ROW_3@
}

/// `acc` followed by a load row for each member id, the `i`-th with the `i`-th hours text.
pub open spec fn dash_load_rows_after(acc: Seq<char>, ids: Seq<u32>, members: Seq<Member>, hours: Seq<String>) -> Seq<char>
    decreases ids.len(),
{
    if ids.len() == 0 {
        acc
    } else {
        dash_load_row_after(
            dash_load_rows_after(acc, ids.drop_last(), members, hours),
            ids.last(),
            member_name_or_empty(members, ids.last()),
            hours[ids.len() - 1]@,
        )
    }
}

/// `acc` followed by a row of the overdue table.
pub open spec fn dash_overdue_row_after(acc: Seq<char>, t: Task) -> Seq<char> {
    acc + DASH_OVERDUE_ROW_0@ + escape_html(t.title@) + DASH_OVERDUE_ROW_1@ + escape_html(t.deadline@)
        + DASH_OVERDUE_ROW_2@ + escape_html(t.status@) + DASH_OVERDUE_ROW_3@
}

/// `acc` followed by a row for each task.
pub open spec fn dash_overdue_rows_after(acc: Seq<char>, ts: Seq<Task>) -> Seq<char>
    decreases ts.len(),
{
    if ts.len() == 0 {
        acc
    } else {
        dash_overdue_row_after(dash_overdue_rows_after(acc, ts.drop_last()), ts.last())
    }
}

/// The content of the dashboard: project statistics, member load, overdue tasks.
pub open spec fn dashboard_content(store: Store, fs: Seq<ProjectFigures>, load_hours: Seq<String>, today: Seq<char>) -> Seq<char> {
    let a = dash_project_rows_after(
        CARD@ + "<h3>项目统计</h3>"@ + DASH_PROJECT_HEAD@,
        store.projects@,
        store.tasks@,
        fs,
    );
    let b = (if store.projects@.len() == 0 {
        a + DASH_NO_PROJECT@
    } else {
        a
    }) + TABLE_END@ + CARD_END@ + CARD@ + "<h3>成员负载</h3>"@ + DASH_LOAD_HEAD@;
    let c = dash_load_rows_after(b, load_ids(store.timesheets@), store.members@, load_hours);
    let d = c + TABLE_END@ + CARD_END@ + CARD@ + "<h3>逾期未完成任务</h3>"@ + DASH_OVERDUE_HEAD@;
    let e = dash_overdue_rows_after(d, overdue_of(store.tasks@, today));
    e + TABLE_END@ + CARD_END@
}

/// The manager's dashboard: for each project its progress, cost against
/// budget and estimate deviation (`figures[i]` for the `i`-th project); the
/// hours of each member (`load_hours[i]` for the `i`-th member in the order
/// of `Store::member_load_groups`); the tasks overdue on `today`.
pub fn dashboard_html(store: &Store, figures: &Vec<ProjectFigures>, load_hours: &Vec<String>, today: &str) -> (res: String)
    requires
        figures@.len() == store.projects@.len(),
        load_hours@.len() == load_ids(store.timesheets@).len(),
    ensures
        res@ == layout_text(
            "管理仪表盘"@,
            "项目经理"@,
            "项目经理"@,
            dashboard_content(*store, figures@, load_hours@, today@),
        ),
{
    let mut content = String::new();
    content.append(CARD);
    content.append("<h3>项目统计</h3>");
    content.append(DASH_PROJECT_HEAD);
    let ghost start = content@;
    let ghost ps = store.projects@;
    let n = store.projects.len();
    let mut i: usize = 0;
    assert(ps.take(0) =~= Seq::<Project>::empty());
    while i < n
        invariant
            n == ps.len(),
            ps == store.projects@,
            figures@.len() == n,
            i <= n,
            content@ == dash_project_rows_after(start, ps.take(i as int), store.tasks@, figures@),
        decreases n - i,
    {
        let p = &store.projects[i];
        let f = &figures[i];
        let (finished, total) = store.project_progress(p.id);
        content.append(DASH_PROJECT_ROW_0);
        push_escaped(&mut content, p.name.as_str());
        content.append(DASH_PROJECT_ROW_1);
        push_decimal(&mut content, finished as u128);
        content.append(DASH_PROJECT_ROW_2);
        push_decimal(&mut content, total as u128);
        content.append(DASH_PROJECT_ROW_3);
        content.append(f.progress.as_str());
        content.append(DASH_PROJECT_ROW_4);
        content.append(f.cost_class.as_str());
        content.append(DASH_PROJECT_ROW_5);
        content.append(f.cost.as_str());
        content.append(DASH_PROJECT_ROW_6);
        content.append(f.budget.as_str());
        content.append(DASH_PROJECT_ROW_7);
        content.append(f.deviation_class.as_str());
        content.append(DASH_PROJECT_ROW_8);
        content.append(f.deviation.as_str());
        content.append(DASH_PROJECT_ROW_9);
        proof {
            assert(ps.take(i + 1).drop_last() =~= ps.take(i as int));
            assert(ps.take(i + 1).last() == ps[i as int]);
        }
        i = i + 1;
    }
    assert(ps.take(n as int) =~= ps);
    if n == 0 {
        content.append(DASH_NO_PROJECT);
    }
    content.append(TABLE_END);
    content.append(CARD_END);
    content.append(CARD);
    content.append("<h3>成员负载</h3>");
    content.append(DASH_LOAD_HEAD);
    let ghost start2 = content@;
    let groups = store.member_load_groups();
    let ghost ids = load_ids(store.timesheets@);
    let m = groups.len();
    let mut g: usize = 0;
    assert(ids.take(0) =~= Seq::<u32>::empty());
    while g < m
        invariant
            m == ids.len(),
            ids == load_ids(store.timesheets@),
            groups@.len() == m,
            forall|j: int|
                0 <= j < m ==> {
                    &&& (#[trigger] groups@[j]).0 == ids[j]
                    &&& groups@[j].1@ == member_name_or_empty(store.members@, ids[j])
                },
            load_hours@.len() == m,
            g <= m,
            content@ == dash_load_rows_after(start2, ids.take(g as int), store.members@, load_hours@),
        decreases m - g,
    {
        let group = &groups[g];
        content.append(DASH_LOAD_ROW_0);
        push_decimal(&mut content, group.0 as u128);
        content.append(DASH_LOAD_ROW_1);
        push_escaped(&mut content, group.1.as_str());
        content.append(DASH_LOAD_ROW_2);
        content.append(load_hours[g].as_str());
        content.append(DASH_LOAD_ROW_3);
        proof {
            assert(ids.take(g + 1).drop_last() =~= ids.take(g as int));
            assert(ids.take(g + 1).last() == ids[g as int]);
        }
        g = g + 1;
    }
    assert(ids.take(m as int) =~= ids);
    content.append(TABLE_END);
    content.append(CARD_END);
    content.append(CARD);
    content.append("<h3>逾期未完成任务</h3>");
    content.append(DASH_OVERDUE_HEAD);
    let ghost start3 = content@;
    let overdue = store.overdue_tasks(today);
    let ghost os = overdue@;
    let k = overdue.len();
    let mut j: usize = 0;
    assert(os.take(0) =~= Seq::<Task>::empty());
    while j < k
        invariant
            k == os.len(),
            os == overdue@,
            j <= k,
            content@ == dash_overdue_rows_after(start3, os.take(j as int)),
        decreases k - j,
    {
        let t = &overdue[j];
        content.append(DASH_OVERDUE_ROW_0);
        push_escaped(&mut content, t.title.as_str());
        content.append(DASH_OVERDUE_ROW_1);
        push_escaped(&mut content, t.deadline.as_str());
        content.append(DASH_OVERDUE_ROW_2);
        push_escaped(&mut content, t.status.as_str());
        content.append(DASH_OVERDUE_ROW_3);
        proof {
            assert(os.take(j + 1).drop_last() =~= os.take(j as int));
            assert(os.take(j + 1).last() == os[j as int]);
        }
        j = j + 1;
    }
    assert(os.take(k as int) =~= os);
    content.append(TABLE_END);
    content.append(CARD_END);
    layout("管理仪表盘", "项目经理", "项目经理", content.as_str())
}

// ------------------------------------------------------------------
// Laws of the pages
// ------------------------------------------------------------------

/// Whether the text `x` occurs in `s`.
pub open spec fn occurs_in(x: Seq<char>, s: Seq<char>) -> bool {
    exists|k: int| 0 <= k && k + x.len() <= s.len() && #[trigger] s.subrange(k, k + x.len()) == x
}

proof fn lemma_occurs_self(x: Seq<char>)
    ensures
        occurs_in(x, x),
{
    let k: int = 0;
    assert(x.subrange(k, k + x.len()) =~= x);
}

/// What occurs in a text occurs in it with more text after it.
proof fn lemma_occurs_append(x: Seq<char>, a: Seq<char>, b: Seq<char>)
    requires
        occurs_in(x, a),
    ensures
        occurs_in(x, a + b),
{
    let k = choose|k: int| 0 <= k && k + x.len() <= a.len() && #[trigger] a.subrange(k, k + x.len()) == x;
    assert((a + b).subrange(k, k + x.len()) =~= a.subrange(k, k + x.len()));
}

/// What occurs in a text occurs in every text that starts with it.
proof fn lemma_occurs_in_prefix(x: Seq<char>, a: Seq<char>, s: Seq<char>)
    requires
        occurs_in(x, a),
        a.len() <= s.len(),
        s.subrange(0, a.len() as int) == a,
    ensures
        occurs_in(x, s),
{
    let k = choose|k: int| 0 <= k && k + x.len() <= a.len() && #[trigger] a.subrange(k, k + x.len()) == x;
    assert(s.subrange(k, k + x.len()) =~= a.subrange(k, k + x.len()));
}

/// What occurs in a text occurs in it with more text around it.
proof fn lemma_occurs_around(x: Seq<char>, a: Seq<char>, m: Seq<char>, b: Seq<char>)
    requires
        occurs_in(x, m),
    ensures
        occurs_in(x, a + m + b),
{
    let k = choose|k: int| 0 <= k && k + x.len() <= m.len() && #[trigger] m.subrange(k, k + x.len()) == x;
    let s = a + m + b;
    assert(s.subrange(a.len() + k, a.len() + k + x.len()) =~= m.subrange(k, k + x.len()));
}

/// The warnings of the tasks come after what was there.
proof fn lemma_warnings_prefix(acc: Seq<char>, ts: Seq<Task>, ws: Seq<Option<(String, String)>>)
    ensures
        acc.len() <= warnings_after(acc, ts, ws).len(),
        warnings_after(acc, ts, ws).subrange(0, acc.len() as int) == acc,
    decreases ts.len(),
{
    if ts.len() > 0 {
        lemma_warnings_prefix(acc, ts.drop_last(), ws);
        let prev = warnings_after(acc, ts.drop_last(), ws);
        let all = warnings_after(acc, ts, ws);
        assert(all.subrange(0, prev.len() as int) =~= prev);
        assert(all.subrange(0, acc.len() as int) =~= prev.subrange(0, acc.len() as int));
    }
}

/// The assignee cell of a task assigned to a member id names the first
/// member with that id: the `j`-th member when no member before it has the id.
pub proof fn law_assignee_cell_names_member(members: Seq<Member>, id: u32, j: int)
    requires
        0 <= j < members.len(),
        members[j].id == id,
        forall|k: int| 0 <= k < j ==> members[k].id != id,
    ensures
        assignee_cell(members, Some(id)) == escape_html(members[j].name@),
{
    assert forall|k: int| 0 <= k < j implies !member_id_is(id)(#[trigger] members[k]) by {}
    crate::store::lemma_first_where(members, member_id_is(id), j);
}

/// A task with no assignee, or whose assignee id no member has, shows `未分配`.
pub proof fn law_assignee_cell_unassigned(members: Seq<Member>, assignee: Option<u32>)
    requires
        assignee matches Some(id) ==> forall|k: int| 0 <= k < members.len() ==> members[k].id != id,
    ensures
        assignee_cell(members, assignee) == "未分配"@,
{
    if let Some(id) = assignee {
        assert forall|k: int| 0 <= k < members.len() implies !member_id_is(id)(#[trigger] members[k]) by {}
        crate::store::lemma_first_where(members, member_id_is(id), members.len() as int);
    }
}

/// The task cell of a timesheet names the task it was booked on: the first
/// task with its task id, the `j`-th task when no task before it has the id.
pub proof fn law_task_cell_names_booked_task(tasks: Seq<Task>, sheet: Timesheet, j: int)
    requires
        0 <= j < tasks.len(),
        tasks[j].id == sheet.task_id,
        forall|k: int| 0 <= k < j ==> tasks[k].id != sheet.task_id,
    ensures
        task_title_cell(tasks, sheet.task_id) == escape_html(tasks[j].title@),
{
    assert forall|k: int| 0 <= k < j implies !task_id_is(sheet.task_id)(#[trigger] tasks[k]) by {}
    crate::store::lemma_first_where(tasks, task_id_is(sheet.task_id), j);
}

proof fn lemma_task_rows_show_assignee(
    acc: Seq<char>,
    ts: Seq<Task>,
    projects: Seq<Project>,
    members: Seq<Member>,
    estimates: Seq<String>,
    i: int,
)
    requires
        0 <= i < ts.len(),
    ensures
        occurs_in(assignee_cell(members, ts[i].assignee), task_rows_after(acc, ts, projects, members, estimates)),
    decreases ts.len(),
{
    let prev = task_rows_after(acc, ts.drop_last(), projects, members, estimates);
    let t = ts.last();
    let all = task_rows_after(acc, ts, projects, members, estimates);
    let head = prev + TASKS_ROW_0@ + escape_html(t.title@) + TASKS_ROW_1@ + project_name_cell(projects, t.project_id)
        + TASKS_ROW_2@;
    let cell = assignee_cell(members, t.assignee);
    let tail = all.subrange((head.len() + cell.len()) as int, all.len() as int);
    if i == ts.len() - 1 {
        lemma_occurs_self(cell);
        lemma_occurs_around(cell, head, cell, tail);
        assert(all =~= head + cell + tail);
    } else {
        assert(ts.drop_last()[i] == ts[i]);
        lemma_task_rows_show_assignee(acc, ts.drop_last(), projects, members, estimates, i);
        lemma_occurs_append(assignee_cell(members, ts[i].assignee), prev, all.subrange(prev.len() as int, all.len() as int));
        assert(all =~= prev + all.subrange(prev.len() as int, all.len() as int));
    }
}

/// The task page names the assignee of every task: the escaped name of the
/// first member whose id is the task's assignee (the `j`-th member when no
/// member before it has the id), never a member found by position.
pub proof fn law_task_page_shows_assignees(
    store: Store,
    flash: Option<Seq<char>>,
    estimates: Seq<String>,
    ws: Seq<Option<(String, String)>>,
    i: int,
    j: int,
)
    requires
        0 <= i < store.tasks@.len(),
        0 <= j < store.members@.len(),
        store.tasks@[i].assignee == Some(store.members@[j].id),
        forall|k: int| 0 <= k < j ==> store.members@[k].id != store.members@[j].id,
    ensures
        occurs_in(
            escape_html(store.members@[j].name@),
            layout_text("任务管理"@, "成员"@, "成员"@, tasks_content(store, flash, estimates, ws)),
        ),
{
    law_assignee_cell_names_member(store.members@, store.members@[j].id, j);
    let x = assignee_cell(store.members@, store.tasks@[i].assignee);
    let start = flash_text(flash) + CARD@ + "<h3>任务列表</h3>"@ + TASKS_HEAD@;
    let rows = task_rows_after(start, store.tasks@, store.projects@, store.members@, estimates);
    lemma_task_rows_show_assignee(start, store.tasks@, store.projects@, store.members@, estimates, i);
    let a = (if store.tasks@.len() == 0 {
        rows + TASKS_NONE@
    } else {
        rows
    }) + TABLE_END@ + CARD_END@;
    if store.tasks@.len() == 0 {
        lemma_occurs_append(x, rows, TASKS_NONE@);
        lemma_occurs_append(x, rows + TASKS_NONE@, TABLE_END@);
        lemma_occurs_append(x, rows + TASKS_NONE@ + TABLE_END@, CARD_END@);
    } else {
        lemma_occurs_append(x, rows, TABLE_END@);
        lemma_occurs_append(x, rows + TABLE_END@, CARD_END@);
    }
    let w = task_warnings_text(a, store.tasks@, ws);
    if any_warning(ws) {
        lemma_warnings_prefix(a + TIMESHEET_WARN_HEAD@, store.tasks@, ws);
        let wa = warnings_after(a + TIMESHEET_WARN_HEAD@, store.tasks@, ws);
        lemma_occurs_append(x, a, TIMESHEET_WARN_HEAD@);
        lemma_occurs_in_prefix(x, a + TIMESHEET_WARN_HEAD@, wa);
        lemma_occurs_append(x, wa, CARD_END@);
    }
    let content = tasks_content(store, flash, estimates, ws);
    lemma_occurs_append(x, w, TASKS_FORM@);
    let page = layout_text("任务管理"@, "成员"@, "成员"@, content);
    let before = page.subrange(0, page.len() - content.len() - LAYOUT_6@.len());
    lemma_occurs_around(x, before, content, LAYOUT_6@);
    assert(page =~= before + content + LAYOUT_6@);
}

proof fn lemma_my_hours_rows_show_task(
    acc: Seq<char>,
    sheets: Seq<Timesheet>,
    tasks: Seq<Task>,
    hours: Seq<String>,
    member_id: u32,
    i: int,
)
    requires
        0 <= i < sheets.len(),
        sheets[i].member_id == member_id,
    ensures
        occurs_in(task_title_cell(tasks, sheets[i].task_id), my_hours_rows_after(acc, sheets, tasks, hours, member_id)),
    decreases sheets.len(),
{
    let prev = my_hours_rows_after(acc, sheets.drop_last(), tasks, hours, member_id);
    let all = my_hours_rows_after(acc, sheets, tasks, hours, member_id);
    let sheet = sheets.last();
    if i == sheets.len() - 1 {
        let head = prev + MY_HOURS_ROW_0@;
        let cell = task_title_cell(tasks, sheet.task_id);
        let tail = all.subrange((head.len() + cell.len()) as int, all.len() as int);
        lemma_occurs_self(cell);
        lemma_occurs_around(cell, head, cell, tail);
        assert(all =~= head + cell + tail);
    } else {
        assert(sheets.drop_last()[i] == sheets[i]);
        lemma_my_hours_rows_show_task(acc, sheets.drop_last(), tasks, hours, member_id, i);
        let rest = all.subrange(prev.len() as int, all.len() as int);
        lemma_occurs_append(task_title_cell(tasks, sheets[i].task_id), prev, rest);
        assert(all =~= prev + rest);
    }
}

/// The "my work" page lists each of the member's timesheets with the task it
/// was booked on: the escaped title of the first task whose id is the
/// timesheet's task id (the `j`-th task when no task before it has the id).
pub proof fn law_my_page_names_booked_tasks(
    store: Store,
    member_id: u32,
    member_name: Seq<char>,
    estimates: Seq<String>,
    hours: Seq<String>,
    i: int,
    j: int,
)
    requires
        0 <= i < store.timesheets@.len(),
        store.timesheets@[i].member_id == member_id,
        0 <= j < store.tasks@.len(),
        store.tasks@[j].id == store.timesheets@[i].task_id,
        forall|k: int| 0 <= k < j ==> store.tasks@[k].id != store.tasks@[j].id,
    ensures
        occurs_in(
            escape_html(store.tasks@[j].title@),
            layout_text("我的工作台"@, member_name, "成员"@, my_content(store, member_id, estimates, hours)),
        ),
{
    let sheet = store.timesheets@[i];
    law_task_cell_names_booked_task(store.tasks@, sheet, j);
    let x = task_title_cell(store.tasks@, sheet.task_id);
    let a = my_task_rows_after(CARD@ + "<h3>我的任务</h3>"@ + MY_TASKS_HEAD@, store.tasks@, estimates, member_id);
    let b = (if !has_task_of(store.tasks@, member_id) {
        a + MY_TASKS_NONE@
    } else {
        a
    }) + TABLE_END@ + CARD_END@ + CARD@ + "<h3>我的工时</h3>"@ + MY_HOURS_HEAD@;
    let c = my_hours_rows_after(b, store.timesheets@, store.tasks@, hours, member_id);
    lemma_my_hours_rows_show_task(b, store.timesheets@, store.tasks@, hours, member_id, i);
    let d = if !has_sheet_of(store.timesheets@, member_id) {
        c + MY_HOURS_NONE@
    } else {
        c
    };
    if !has_sheet_of(store.timesheets@, member_id) {
        lemma_occurs_append(x, c, MY_HOURS_NONE@);
    }
    lemma_occurs_append(x, d, TABLE_END@);
    lemma_occurs_append(x, d + TABLE_END@, CARD_END@);
    let content = my_content(store, member_id, estimates, hours);
    let page = layout_text("我的工作台"@, member_name, "成员"@, content);
    let before = page.subrange(0, page.len() - content.len() - LAYOUT_6@.len());
    lemma_occurs_around(x, before, content, LAYOUT_6@);
    assert(page =~= before + content + LAYOUT_6@);
}

/// The project cell of a task names the first project with the task's
/// project id (the `j`-th when no project before it has the id), or is
/// `未知项目` when no project has it.
pub proof fn law_project_cell_names_project(projects: Seq<Project>, project_id: u32, j: int)
    requires
        0 <= j < projects.len() ==> projects[j].id == project_id && forall|k: int| 0 <= k < j ==> projects[k].id
            != project_id,
        !(0 <= j < projects.len()) ==> forall|k: int| 0 <= k < projects.len() ==> projects[k].id != project_id,
    ensures
        project_name_cell(projects, project_id) == if 0 <= j < projects.len() {
            escape_html(projects[j].name@)
        } else {
            "未知项目"@
        },
{
    if 0 <= j < projects.len() {
        assert forall|k: int| 0 <= k < j implies !project_id_is(project_id)(#[trigger] projects[k]) by {}
        crate::store::lemma_first_where(projects, project_id_is(project_id), j);
    } else {
        assert forall|k: int| 0 <= k < projects.len() implies !project_id_is(project_id)(#[trigger] projects[k]) by {}
        crate::store::lemma_first_where(projects, project_id_is(project_id), projects.len() as int);
    }
}

} // verus!
