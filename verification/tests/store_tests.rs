//! The store: CRUD, seed data, statistics and dates.
//!
//! Sums of hours and amounts are taken here, in `f64`, from the terms that
//! the store hands out, in the order the store gives them.

use rdplatform::auth::{hash_password, verify_password};
use rdplatform::model::consts;
use rdplatform::model::{FloatBits, Member, Project, Role, Task, Timesheet};
use rdplatform::store::{bytes_less, date_of_secs, Store, DEFAULT_DATA_FILE};

fn bits(x: f64) -> FloatBits {
    FloatBits { bits: x.to_bits() }
}

fn f(b: FloatBits) -> f64 {
    f64::from_bits(b.bits)
}

fn task_hours(s: &Store, task_id: u32) -> f64 {
    s.task_hours_terms(task_id).iter().map(|h| f(*h)).sum()
}

fn project_cost(s: &Store, project_id: u32) -> f64 {
    s.project_cost_terms(project_id)
        .iter()
        .map(|(h, r)| f(*h) * r.map(f).unwrap_or(0.0))
        .sum()
}

fn estimate_deviation(s: &Store, project_id: u32) -> f64 {
    let terms = s.estimate_deviation_terms(project_id);
    let estimate: f64 = terms.iter().map(|(e, _)| f(*e)).sum();
    let actual: f64 = terms.iter().map(|(_, hs)| hs.iter().map(|h| f(*h)).sum::<f64>()).sum();
    actual - estimate
}

fn member_load(s: &Store) -> Vec<(u32, String, f64)> {
    s.member_load_groups()
        .into_iter()
        .map(|(id, name, hs)| {
            let mut total = f(hs[0]);
            for h in &hs[1..] {
                total += f(*h);
            }
            (id, name, total)
        })
        .collect()
}

fn seeded() -> Store {
    let mut s = Store::new();
    s.seed();
    s
}

fn ts(id: u32, task_id: u32, member_id: u32, hours: f64) -> Timesheet {
    Timesheet {
        id,
        task_id,
        member_id,
        date: "2026-09-02".to_string(),
        hours: bits(hours),
        note: String::new(),
    }
}

/// Three members, two projects, five tasks, four timesheets.
fn rich_store() -> Store {
    let mut s = Store::new();
    s.path = "data/test_db.json".into();

    let mk = |id: u32, username: &str, plain: &str, name: &str, role: Role, rate: f64| Member {
        id,
        username: username.into(),
        password_hash: hash_password(plain),
        name: name.into(),
        role,
        rate: bits(rate),
    };
    s.members.push(mk(1, "pm1", "pm123", "王经理", Role::Pm, 300.0));
    s.members.push(mk(2, "dev1", "dv123", "李开发", Role::Dev, 200.0));
    s.members.push(mk(3, "qa1", "qa123", "赵测试", Role::Qa, 150.0));
    s.next_id = 4;

    s.projects.push(Project {
        id: 1,
        name: "项目A".into(),
        desc: String::new(),
        budget: bits(50000.0),
        start: "2026-09-01".into(),
        deadline: "2026-10-31".into(),
        status: consts::PRJ_ACTIVE.into(),
    });
    s.projects.push(Project {
        id: 2,
        name: "项目B".into(),
        desc: String::new(),
        budget: bits(30000.0),
        start: "2026-09-01".into(),
        deadline: "2026-09-20".into(),
        status: consts::PRJ_ACTIVE.into(),
    });

    let task = |id: u32, project_id: u32, title: &str, assignee: u32, priority: &str, status: &str, est: f64, deadline: &str| Task {
        id,
        project_id,
        title: title.into(),
        assignee: Some(assignee),
        priority: priority.into(),
        status: status.into(),
        estimate_hours: bits(est),
        deadline: deadline.into(),
    };
    s.tasks.push(task(1, 1, "任务1-1", 2, consts::P_HIGH, consts::T_DONE, 20.0, "2026-09-15"));
    s.tasks.push(task(2, 1, "任务1-2", 2, consts::P_MEDIUM, consts::T_DOING, 30.0, "2026-09-25"));
    s.tasks.push(task(3, 1, "任务1-3", 3, consts::P_LOW, consts::T_TODO, 10.0, "2026-10-10"));
    s.tasks.push(task(4, 2, "任务2-1", 2, consts::P_HIGH, consts::T_TODO, 15.0, "2026-09-18"));
    s.tasks.push(task(5, 2, "任务2-2", 3, consts::P_MEDIUM, consts::T_TODO, 8.0, "2026-09-19"));

    s.timesheets.push(ts(101, 1, 2, 12.0));
    s.timesheets.push(ts(102, 2, 2, 25.0));
    s.timesheets.push(ts(103, 3, 3, 5.0));
    s.timesheets.push(ts(104, 4, 2, 6.0));

    s
}

// ---- dates ----

#[test]
fn today_iso_format() {
    let s = Store::today_iso();
    assert_eq!(s.len(), 10);
    assert!(s.contains('-'));
}

#[test]
fn dates_of_known_days() {
    assert_eq!(date_of_secs(0), "1970-01-01");
    assert_eq!(date_of_secs(86399), "1970-01-01");
    assert_eq!(date_of_secs(86400), "1970-01-02");
    assert_eq!(date_of_secs(951782400), "2000-02-29");
    assert_eq!(date_of_secs(1789430400), "2026-09-15");
    assert_eq!(date_of_secs(4102444800), "2100-01-01");
}

#[test]
fn byte_order_of_dates() {
    assert!(bytes_less(b"2026-09-15", b"2026-09-20"));
    assert!(!bytes_less(b"2026-09-20", b"2026-09-15"));
    assert!(!bytes_less(b"2026-09-15", b"2026-09-15"));
    assert!(bytes_less(b"2026-09", b"2026-09-01"));
}

// ---- members ----

#[test]
fn new_store_is_empty() {
    let s = Store::new();
    assert!(s.members.is_empty() && s.projects.is_empty() && s.tasks.is_empty() && s.timesheets.is_empty());
    assert_eq!(s.next_id, 1);
    assert_eq!(s.path, DEFAULT_DATA_FILE);
}

#[test]
fn seed_creates_accounts() {
    let s = seeded();
    assert_eq!(s.members.len(), 3);
    assert!(s.find_member_by_username("pm1").is_some());
    assert!(s.find_member_by_username("nobody").is_none());
}

#[test]
fn member_crud_unique_username() {
    let mut s = seeded();
    let dup = s.members[0].clone();
    assert!(s.add_member(dup).is_err());
    let bad = Member {
        id: 99,
        username: String::new(),
        password_hash: String::new(),
        name: "x".into(),
        role: Role::Dev,
        rate: bits(1.0),
    };
    assert!(s.add_member(bad).is_err());
}

#[test]
fn member_errors_name_the_cause() {
    let mut s = seeded();
    let dup = s.members[1].clone();
    assert_eq!(s.add_member(dup), Err("用户名 dev1 已存在".to_string()));
    let mut empty = s.members[0].clone();
    empty.username = String::new();
    assert_eq!(s.add_member(empty), Err("用户名不能为空".to_string()));
    let mut fresh = s.members[0].clone();
    fresh.id = 9;
    fresh.username = "pm2".into();
    assert_eq!(s.add_member(fresh), Ok(()));
    assert_eq!(s.member_by_id(9).unwrap().username, "pm2");
    assert_eq!(s.members.len(), 4);
}

#[test]
fn alloc_id_counts_up() {
    let mut s = Store::new();
    assert_eq!(s.alloc_id(), 1);
    assert_eq!(s.alloc_id(), 2);
    assert_eq!(s.next_id, 3);
}

// ---- projects and tasks ----

#[test]
fn project_and_task_need_names() {
    let mut s = seeded();
    let mut p = s.projects[0].clone();
    p.name = String::new();
    assert_eq!(s.add_project(p), Err("项目名称不能为空".to_string()));
    let mut t = s.tasks[0].clone();
    t.title = String::new();
    assert_eq!(s.add_task(t), Err("任务标题不能为空".to_string()));
    let mut p2 = s.projects[0].clone();
    p2.id = 7;
    assert!(s.add_project(p2).is_ok());
    assert!(s.project_by_id(7).is_some());
    assert!(s.project_by_id(8).is_none());
}

#[test]
fn task_status_flow() {
    let mut s = seeded();
    s.set_task_status(1, consts::T_DONE).unwrap();
    assert_eq!(s.task_by_id(1).unwrap().status, consts::T_DONE);
    assert!(s.set_task_status(999, consts::T_DONE).is_err());
}

#[test]
fn task_status_of_missing_task() {
    let mut s = seeded();
    assert_eq!(s.set_task_status(999, "完成"), Err("任务不存在".to_string()));
    assert_eq!(s.task_by_id(1).unwrap().status, consts::T_TODO);
}

// ---- timesheets and statistics ----

#[test]
fn timesheet_and_task_hours() {
    let mut s = seeded();
    let id1 = s.alloc_id();
    s.add_timesheet(ts(id1, 1, 2, 8.0)).unwrap();
    let id2 = s.alloc_id();
    s.add_timesheet(ts(id2, 1, 2, 2.0)).unwrap();
    assert_eq!(task_hours(&s, 1), 10.0);
    let id3 = s.alloc_id();
    assert!(s.add_timesheet(ts(id3, 1, 2, -1.0)).is_err());
    let id4 = s.alloc_id();
    assert!(s.add_timesheet(ts(id4, 999, 2, 1.0)).is_err());
}

#[test]
fn timesheet_errors_name_the_cause() {
    let mut s = seeded();
    assert_eq!(s.add_timesheet(ts(10, 999, 2, 1.0)), Err("任务不存在".to_string()));
    assert_eq!(s.add_timesheet(ts(10, 1, 2, 0.0)), Err("工时必须大于 0".to_string()));
    assert_eq!(s.add_timesheet(ts(10, 1, 2, -0.0)), Err("工时必须大于 0".to_string()));
    // NaN hours are not positive either.
    assert_eq!(s.add_timesheet(ts(10, 1, 2, f64::NAN)), Err("工时必须大于 0".to_string()));
    assert!(s.timesheets.is_empty());
    assert_eq!(s.add_timesheet(ts(10, 1, 2, 0.5)), Ok(()));
    assert_eq!(s.timesheets.len(), 1);
}

#[test]
fn project_cost_uses_member_rate() {
    let mut s = seeded();
    let id1 = s.alloc_id();
    s.add_timesheet(ts(id1, 1, 2, 10.0)).unwrap();
    let id2 = s.alloc_id();
    s.add_timesheet(ts(id2, 1, 3, 4.0)).unwrap();
    assert_eq!(project_cost(&s, 1), 2600.0);
}

#[test]
fn progress_and_deviation() {
    let mut s = seeded();
    assert_eq!(s.project_progress(1), (0, 1));
    s.set_task_status(1, consts::T_DONE).unwrap();
    assert_eq!(s.project_progress(1), (1, 1));
    assert_eq!(estimate_deviation(&s, 1), -40.0);
}

#[test]
fn overdue_detection() {
    let mut s = seeded();
    assert_eq!(s.overdue_tasks("2026-09-20").len(), 1);
    assert!(s.overdue_tasks("2026-09-01").is_empty());
    s.set_task_status(1, consts::T_DONE).unwrap();
    assert!(s.overdue_tasks("2026-09-20").is_empty());
}

#[test]
fn member_load_and_views() {
    let mut s = seeded();
    let id1 = s.alloc_id();
    s.add_timesheet(ts(id1, 1, 2, 8.0)).unwrap();
    let id2 = s.alloc_id();
    s.add_timesheet(ts(id2, 1, 3, 3.0)).unwrap();
    let loads = member_load(&s);
    assert_eq!(loads.len(), 2);
    assert!(loads.contains(&(2, "李开发".to_string(), 8.0)));
    assert_eq!(s.member_tasks(2).len(), 1);
    assert_eq!(s.member_timesheets(3).len(), 1);
}

#[test]
fn progress_project1() {
    let s = rich_store();
    let (done, total) = s.project_progress(1);
    assert_eq!(done, 1);
    assert_eq!(total, 3);
}

#[test]
fn progress_project2() {
    let s = rich_store();
    let (done, total) = s.project_progress(2);
    assert_eq!(done, 0);
    assert_eq!(total, 2);
}

#[test]
fn progress_nonexistent_project() {
    let s = rich_store();
    assert_eq!(s.project_progress(999), (0, 0));
}

#[test]
fn cost_project1() {
    let s = rich_store();
    assert_eq!(project_cost(&s, 1), 8150.0);
}

#[test]
fn cost_project2() {
    let s = rich_store();
    assert_eq!(project_cost(&s, 2), 1200.0);
}

#[test]
fn cost_nonexistent_project() {
    let s = rich_store();
    assert_eq!(project_cost(&s, 999), 0.0);
}

#[test]
fn cost_terms_carry_hours_and_rates() {
    let mut s = rich_store();
    s.timesheets.push(ts(105, 1, 42, 2.0));
    let terms = s.project_cost_terms(1);
    assert_eq!(
        terms,
        vec![
            (bits(12.0), Some(bits(200.0))),
            (bits(25.0), Some(bits(200.0))),
            (bits(5.0), Some(bits(150.0))),
            (bits(2.0), None),
        ]
    );
}

#[test]
fn deviation_project1() {
    let s = rich_store();
    assert_eq!(estimate_deviation(&s, 1), -18.0);
}

#[test]
fn deviation_project2() {
    let s = rich_store();
    assert_eq!(estimate_deviation(&s, 2), -17.0);
}

#[test]
fn member_load_totals() {
    let s = rich_store();
    let loads = member_load(&s);
    assert_eq!(loads.len(), 2);
    assert!(loads.contains(&(2, "李开发".to_string(), 43.0)));
    assert!(loads.contains(&(3, "赵测试".to_string(), 5.0)));
}

#[test]
fn member_load_empty_store() {
    let s = Store::new();
    assert!(member_load(&s).is_empty());
}

#[test]
fn member_load_keeps_first_booking_order() {
    let mut s = rich_store();
    s.timesheets.insert(0, ts(100, 3, 3, 1.0));
    s.timesheets.push(ts(106, 3, 77, 1.0));
    let groups = s.member_load_groups();
    let ids: Vec<u32> = groups.iter().map(|g| g.0).collect();
    assert_eq!(ids, vec![3, 2, 77]);
    assert_eq!(groups[2].1, "");
    assert_eq!(groups[0].2, vec![bits(1.0), bits(5.0)]);
}

#[test]
fn overdue_with_rich_data() {
    let s = rich_store();
    let overdue = s.overdue_tasks("2026-09-20");
    assert_eq!(overdue.len(), 2);
    assert!(overdue.iter().any(|t| t.id == 4));
    assert!(overdue.iter().any(|t| t.id == 5));
}

#[test]
fn overdue_none_when_all_before_deadline() {
    let s = rich_store();
    let overdue = s.overdue_tasks("2026-09-01");
    assert!(overdue.is_empty());
}

#[test]
fn overdue_excludes_completed() {
    let s = rich_store();
    let overdue = s.overdue_tasks("2026-09-16");
    assert!(overdue.iter().all(|t| t.status != consts::T_DONE));
}

#[test]
fn task_hours_accumulates() {
    let s = rich_store();
    assert_eq!(task_hours(&s, 2), 25.0);
    assert_eq!(task_hours(&s, 1), 12.0);
    assert_eq!(task_hours(&s, 5), 0.0);
}

#[test]
fn task_hours_nonexistent() {
    let s = rich_store();
    assert_eq!(task_hours(&s, 999), 0.0);
}

#[test]
fn my_views_of_rich_store() {
    let s = rich_store();
    let mine: Vec<u32> = s.member_tasks(2).iter().map(|t| t.id).collect();
    assert_eq!(mine, vec![1, 2, 4]);
    let sheets: Vec<u32> = s.member_timesheets(2).iter().map(|t| t.id).collect();
    assert_eq!(sheets, vec![101, 102, 104]);
    assert!(s.member_tasks(1).is_empty());
}

// ---- seed ----

#[test]
fn seed_content_and_idempotent() {
    let mut s = Store::new();
    s.seed();

    assert_eq!(s.members.len(), 3);
    let pm = s.member_by_id(1).unwrap();
    assert_eq!((pm.username.as_str(), pm.name.as_str(), f(pm.rate)), ("pm1", "王经理", 300.0));
    assert_eq!(pm.role, Role::Pm);
    assert!(verify_password("pm123", &pm.password_hash));
    assert!(!pm.password_hash.contains("pm123"));
    let dev = s.member_by_id(2).unwrap();
    assert_eq!((dev.username.as_str(), dev.name.as_str(), f(dev.rate)), ("dev1", "李开发", 200.0));
    assert!(verify_password("dv123", &dev.password_hash));
    let qa = s.member_by_id(3).unwrap();
    assert_eq!((qa.username.as_str(), qa.name.as_str(), f(qa.rate)), ("qa1", "赵测试", 150.0));
    assert!(verify_password("qa123", &qa.password_hash));
    assert!(!verify_password("wrong", &pm.password_hash));

    assert_eq!(s.next_id, 4);
    assert!(s.timesheets.is_empty());
    let p = s.project_by_id(1).unwrap();
    assert_eq!(p.name, "智慧校园 App");
    assert_eq!(f(p.budget), 100000.0);
    assert_eq!((p.start.as_str(), p.deadline.as_str()), ("2026-09-01", "2026-12-31"));
    assert_eq!(p.status, consts::PRJ_ACTIVE);
    let t = s.task_by_id(1).unwrap();
    assert_eq!(t.title, "用户登录模块");
    assert_eq!((t.project_id, t.assignee), (1, Some(2)));
    assert_eq!(t.priority, consts::P_HIGH);
    assert_eq!(t.status, consts::T_TODO);
    assert_eq!(f(t.estimate_hours), 40.0);
    assert_eq!(t.deadline, "2026-09-15");
    assert!(s.project_by_id(t.project_id).is_some());
    assert!(s.member_by_id(t.assignee.unwrap()).is_some());

    s.seed();
    assert_eq!(s.members.len(), 3);
    assert_eq!(s.next_id, 4);
}

#[test]
fn seed_data_consistency() {
    let mut s = Store::new();
    s.seed();

    assert_eq!(s.members.len(), 3);
    assert_eq!(s.projects.len(), 1);
    assert_eq!(s.tasks.len(), 1);

    assert!(verify_password("pm123", &s.members[0].password_hash));
    assert!(verify_password("dv123", &s.members[1].password_hash));
    assert!(verify_password("qa123", &s.members[2].password_hash));

    assert!(s.members[0].role.is_pm());
    assert!(!s.members[1].role.is_pm());
}

#[test]
fn seed_leaves_a_store_with_members_alone() {
    let mut s = Store::new();
    let mut m = rich_store().members[1].clone();
    m.id = 50;
    s.members.push(m);
    s.seed();
    assert_eq!(s.members.len(), 1);
    assert!(s.projects.is_empty());
    assert_eq!(s.next_id, 1);
}
