//! The in-memory store: members, projects, tasks and timesheets, with their
//! create/read/update operations, the demo data, and the figures behind the
//! dashboard (progress, cost, estimate deviation, member load, overdue tasks).
//!
//! Sums of hours and of money are floating-point; for those figures the
//! store selects and orders the values that go into each sum, and the
//! caller adds them up.

use vstd::prelude::*;
use vstd::string::StringSliceAdditionalSpecFns;
use vstd::utf8::encode_utf8;
use crate::auth::{hash_password, password_hash};
use crate::model::{FloatBits, Member, Project, Role, Task, Timesheet, float_gt_zero};
use crate::model::consts::{PRJ_ACTIVE, P_HIGH, T_DONE, T_TODO};
use crate::text::{chars_eq, chars_eq_str, chars_of, decimal, push_chars, push_decimal_padded, zero_pad};
use crate::clock::now_secs;
use vstd::string::StringExecFns;

verus! {

/// Default data file.
pub const DEFAULT_DATA_FILE: &'static str = "data/db.json";

/// All data, kept in memory and saved as a whole.
#[derive(Debug)]
pub struct Store {
    pub members: Vec<Member>,
    pub projects: Vec<Project>,
    pub tasks: Vec<Task>,
    pub timesheets: Vec<Timesheet>,
    /// Next id to hand out.
    pub next_id: u32,
    /// File the store is saved to (not itself saved).
    pub path: String,
}

/// Index of the first element of `s` that satisfies `p`, or `s.len()`.
pub open spec fn first_where<T>(s: Seq<T>, p: spec_fn(T) -> bool) -> nat
    decreases s.len(),
{
    if s.len() == 0 {
        0
    } else if p(s[0]) {
        0
    } else {
        1 + first_where(s.drop_first(), p)
    }
}

/// `first_where` gives the first element that satisfies `p`.
pub proof fn lemma_first_where<T>(s: Seq<T>, p: spec_fn(T) -> bool, k: int)
    requires
        0 <= k <= s.len(),
        forall|j: int| 0 <= j < k ==> !p(#[trigger] s[j]),
        k == s.len() || p(s[k]),
    ensures
        first_where(s, p) == k,
    decreases k,
{
    if k > 0 {
        let t = s.drop_first();
        assert(!p(s[0]));
        assert forall|j: int| 0 <= j < k - 1 implies !p(#[trigger] t[j]) by {
            assert(t[j] == s[j + 1]);
        }
        if k < s.len() {
            assert(t[k - 1] == s[k]);
        }
        lemma_first_where(t, p, k - 1);
    }
}

/// Members with a given user name.
pub open spec fn has_username(name: Seq<char>) -> spec_fn(Member) -> bool {
    |m: Member| m.username@ == name
}

/// Members with a given id.
pub open spec fn member_id_is(id: u32) -> spec_fn(Member) -> bool {
    |m: Member| m.id == id
}

/// Projects with a given id.
pub open spec fn project_id_is(id: u32) -> spec_fn(Project) -> bool {
    |p: Project| p.id == id
}

/// Tasks with a given id.
pub open spec fn task_id_is(id: u32) -> spec_fn(Task) -> bool {
    |t: Task| t.id == id
}

/// The first element that satisfies `p`, if any.
pub open spec fn find_first<T>(s: Seq<T>, p: spec_fn(T) -> bool) -> Option<T> {
    let k = first_where(s, p);
    if k < s.len() {
        Some(s[k as int])
    } else {
        None
    }
}

/// The tasks after the status of the first task with an id is set: that
/// task gets the status and keeps its other fields, the others are
/// unchanged; without such a task nothing changes.
pub open spec fn status_updated(before: Seq<Task>, after: Seq<Task>, task_id: u32, status: Seq<char>) -> bool {
    let k = first_where(before, task_id_is(task_id));
    if k < before.len() {
        &&& after.len() == before.len()
        &&& after[k as int].status@ == status
        &&& after[k as int].id == before[k as int].id
        &&& after[k as int].project_id == before[k as int].project_id
        &&& after[k as int].title == before[k as int].title
        &&& after[k as int].assignee == before[k as int].assignee
        &&& after[k as int].priority == before[k as int].priority
        &&& after[k as int].estimate_hours == before[k as int].estimate_hours
        &&& after[k as int].deadline == before[k as int].deadline
        &&& forall|j: int| 0 <= j < before.len() && j != k ==> #[trigger] after[j] == before[j]
    } else {
        after == before
    }
}

/// Message when a user name is empty.
pub open spec fn err_empty_username() -> Seq<char> {
    "用户名不能为空"@
}

/// Message when a user name is taken.
pub open spec fn err_duplicate_username(name: Seq<char>) -> Seq<char> {
    "用户名 "@ + name + " 已存在"@
}

/// Why a member cannot be added, if it cannot.
pub open spec fn add_member_error(members: Seq<Member>, m: Member) -> Option<Seq<char>> {
    if m.username@.len() == 0 {
        Some(err_empty_username())
    } else if exists|i: int| 0 <= i < members.len() && #[trigger] members[i].username@ == m.username@ {
        Some(err_duplicate_username(m.username@))
    } else {
        None
    }
}

fn str_is_empty(s: &String) -> (res: bool)
    ensures
        res == (s@.len() == 0),
{
    s.as_str().is_empty()
}

impl Store {
    /// An empty store bound to the default data file.
    pub fn new() -> (res: Store)
        ensures
            res.members@.len() == 0,
            res.projects@.len() == 0,
            res.tasks@.len() == 0,
            res.timesheets@.len() == 0,
            res.next_id == 1,
            res.path@ == DEFAULT_DATA_FILE@,
    {
        Store {
            members: Vec::new(),
            projects: Vec::new(),
            tasks: Vec::new(),
            timesheets: Vec::new(),
            next_id: 1,
            path: String::from_str(DEFAULT_DATA_FILE),
        }
    }

    /// Hands out a new id.
    pub fn alloc_id(&mut self) -> (id: u32)
        requires
            old(self).next_id < u32::MAX,
        ensures
            id == old(self).next_id,
            final(self).next_id == old(self).next_id + 1,
            final(self).members == old(self).members,
            final(self).projects == old(self).projects,
            final(self).tasks == old(self).tasks,
            final(self).timesheets == old(self).timesheets,
            final(self).path == old(self).path,
    {
        let id = self.next_id;
        self.next_id = self.next_id + 1;
        id
    }

    // ---------------- members ----------------

    /// Adds a member; the user name must be non-empty and not yet taken.
    pub fn add_member(&mut self, m: Member) -> (res: Result<(), String>)
        ensures
            match add_member_error(old(self).members@, m) {
                Some(e) => res matches Err(msg) && msg@ == e && final(self).members
                    == old(self).members,
                None => res is Ok && final(self).members@ == old(self).members@.push(m),
            },
            final(self).projects == old(self).projects,
            final(self).tasks == old(self).tasks,
            final(self).timesheets == old(self).timesheets,
            final(self).next_id == old(self).next_id,
            final(self).path == old(self).path,
    {
        if str_is_empty(&m.username) {
            return Err(String::from_str("用户名不能为空"));
        }
        let name = chars_of(m.username.as_str());
        let n = self.members.len();
        let mut i: usize = 0;
        while i < n
            invariant
                n == self.members@.len(),
                name@ == m.username@,
                m.username@.len() > 0,
                i <= n,
                forall|j: int| 0 <= j < i ==> self.members@[j].username@ != m.username@,
            decreases n - i,
        {
            let other = chars_of(self.members[i].username.as_str());
            if chars_eq(other.as_slice(), name.as_slice()) {
                let mut msg = String::from_str("用户名 ");
                push_chars(&mut msg, name.as_slice());
                msg.append(" 已存在");
                assert(self.members@[i as int].username@ == m.username@);
                return Err(msg);
            }
            i = i + 1;
        }
        self.members.push(m);
        Ok(())
    }

    /// The first member with a user name (for login).
    pub fn find_member_by_username(&self, username: &str) -> (res: Option<&Member>)
        ensures
            match find_first(self.members@, has_username(username@)) {
                Some(m) => res matches Some(r) && *r == m,
                None => res is None,
            },
    {
        let name = chars_of(username);
        let n = self.members.len();
        let mut i: usize = 0;
        while i < n
            invariant
                n == self.members@.len(),
                name@ == username@,
                i <= n,
                forall|j: int| 0 <= j < i ==> !has_username(username@)(#[trigger] self.members@[j]),
            decreases n - i,
        {
            let other = chars_of(self.members[i].username.as_str());
            if chars_eq(other.as_slice(), name.as_slice()) {
                proof {
                    lemma_first_where(self.members@, has_username(username@), i as int);
                }
                return Some(&self.members[i]);
            }
            i = i + 1;
        }
        proof {
            lemma_first_where(self.members@, has_username(username@), n as int);
        }
        None
    }

    /// The first member with an id.
    pub fn member_by_id(&self, id: u32) -> (res: Option<&Member>)
        ensures
            match find_first(self.members@, member_id_is(id)) {
                Some(m) => res matches Some(r) && *r == m,
                None => res is None,
            },
    {
        let n = self.members.len();
        let mut i: usize = 0;
        while i < n
            invariant
                n == self.members@.len(),
                i <= n,
                forall|j: int| 0 <= j < i ==> !member_id_is(id)(#[trigger] self.members@[j]),
            decreases n - i,
        {
            if self.members[i].id == id {
                proof {
                    lemma_first_where(self.members@, member_id_is(id), i as int);
                }
                return Some(&self.members[i]);
            }
            i = i + 1;
        }
        proof {
            lemma_first_where(self.members@, member_id_is(id), n as int);
        }
        None
    }

    // ---------------- projects ----------------

    /// Adds a project; its name must be non-empty.
    pub fn add_project(&mut self, p: Project) -> (res: Result<(), String>)
        ensures
            p.name@.len() == 0 ==> (res matches Err(msg) && msg@ == "项目名称不能为空"@
                && final(self).projects == old(self).projects),
            p.name@.len() > 0 ==> res is Ok && final(self).projects@ == old(self).projects@.push(p),
            final(self).members == old(self).members,
            final(self).tasks == old(self).tasks,
            final(self).timesheets == old(self).timesheets,
            final(self).next_id == old(self).next_id,
            final(self).path == old(self).path,
    {
        if str_is_empty(&p.name) {
            return Err(String::from_str("项目名称不能为空"));
        }
        self.projects.push(p);
        Ok(())
    }

    /// The first project with an id.
    pub fn project_by_id(&self, id: u32) -> (res: Option<&Project>)
        ensures
            match find_first(self.projects@, project_id_is(id)) {
                Some(p) => res matches Some(r) && *r == p,
                None => res is None,
            },
    {
        let n = self.projects.len();
        let mut i: usize = 0;
        while i < n
            invariant
                n == self.projects@.len(),
                i <= n,
                forall|j: int| 0 <= j < i ==> !project_id_is(id)(#[trigger] self.projects@[j]),
            decreases n - i,
        {
            if self.projects[i].id == id {
                proof {
                    lemma_first_where(self.projects@, project_id_is(id), i as int);
                }
                return Some(&self.projects[i]);
            }
            i = i + 1;
        }
        proof {
            lemma_first_where(self.projects@, project_id_is(id), n as int);
        }
        None
    }

    // ---------------- tasks ----------------

    /// Adds a task; its title must be non-empty.
    pub fn add_task(&mut self, t: Task) -> (res: Result<(), String>)
        ensures
            t.title@.len() == 0 ==> (res matches Err(msg) && msg@ == "任务标题不能为空"@
                && final(self).tasks == old(self).tasks),
            t.title@.len() > 0 ==> res is Ok && final(self).tasks@ == old(self).tasks@.push(t),
            final(self).members == old(self).members,
            final(self).projects == old(self).projects,
            final(self).timesheets == old(self).timesheets,
            final(self).next_id == old(self).next_id,
            final(self).path == old(self).path,
    {
        if str_is_empty(&t.title) {
            return Err(String::from_str("任务标题不能为空"));
        }
        self.tasks.push(t);
        Ok(())
    }

    /// Index of the first task with an id, or the number of tasks.
    fn task_index(&self, id: u32) -> (res: usize)
        ensures
            res == first_where(self.tasks@, task_id_is(id)),
            res <= self.tasks@.len(),
    {
        let n = self.tasks.len();
        let mut i: usize = 0;
        while i < n && self.tasks[i].id != id
            invariant
                n == self.tasks@.len(),
                i <= n,
                forall|j: int| 0 <= j < i ==> !task_id_is(id)(#[trigger] self.tasks@[j]),
            decreases n - i,
        {
            i = i + 1;
        }
        proof {
            lemma_first_where(self.tasks@, task_id_is(id), i as int);
        }
        i
    }

    /// The first task with an id.
    pub fn task_by_id(&self, id: u32) -> (res: Option<&Task>)
        ensures
            match find_first(self.tasks@, task_id_is(id)) {
                Some(t) => res matches Some(r) && *r == t,
                None => res is None,
            },
    {
        let i = self.task_index(id);
        if i < self.tasks.len() {
            Some(&self.tasks[i])
        } else {
            None
        }
    }

    /// Sets the status of the first task with an id.
    pub fn set_task_status(&mut self, task_id: u32, status: &str) -> (res: Result<(), String>)
        ensures
            status_updated(old(self).tasks@, final(self).tasks@, task_id, status@),
            first_where(old(self).tasks@, task_id_is(task_id)) < old(self).tasks@.len() ==> res is Ok,
            first_where(old(self).tasks@, task_id_is(task_id)) == old(self).tasks@.len() ==> (res matches Err(msg) && msg@ == "任务不存在"@),
            final(self).members == old(self).members,
            final(self).projects == old(self).projects,
            final(self).timesheets == old(self).timesheets,
            final(self).next_id == old(self).next_id,
            final(self).path == old(self).path,
    {
        let i = self.task_index(task_id);
        if i >= self.tasks.len() {
            return Err(String::from_str("任务不存在"));
        }
        let old_task = self.tasks[i].copy();
        let new_task = Task {
            id: old_task.id,
            project_id: old_task.project_id,
            title: old_task.title,
            assignee: old_task.assignee,
            priority: old_task.priority,
            status: String::from_str(status),
            estimate_hours: old_task.estimate_hours,
            deadline: old_task.deadline,
        };
        self.tasks.set(i, new_task);
        Ok(())
    }

    // ---------------- timesheets ----------------

    /// Adds a timesheet; its task must exist and its hours must be positive
    /// (a value that does not compare `> 0.0`, a NaN among them, is refused).
    pub fn add_timesheet(&mut self, t: Timesheet) -> (res: Result<(), String>)
        ensures
            find_first(old(self).tasks@, task_id_is(t.task_id)) is None ==> (res matches Err(msg)
                && msg@ == "任务不存在"@ && final(self).timesheets == old(self).timesheets),
            find_first(old(self).tasks@, task_id_is(t.task_id)) is Some && !float_gt_zero(
                t.hours.bits,
            ) ==> (res matches Err(msg) && msg@ == "工时必须大于 0"@ && final(self).timesheets
                == old(self).timesheets),
            find_first(old(self).tasks@, task_id_is(t.task_id)) is Some && float_gt_zero(
                t.hours.bits,
            ) ==> res is Ok && final(self).timesheets@ == old(self).timesheets@.push(t),
            final(self).members == old(self).members,
            final(self).projects == old(self).projects,
            final(self).tasks == old(self).tasks,
            final(self).next_id == old(self).next_id,
            final(self).path == old(self).path,
    {
        if self.task_by_id(t.task_id).is_none() {
            return Err(String::from_str("任务不存在"));
        }
        if !t.hours.gt_zero() {
            return Err(String::from_str("工时必须大于 0"));
        }
        self.timesheets.push(t);
        Ok(())
    }

    // ---------------- figures ----------------

    /// The hours booked on a task, in booking order (the terms of its total).
    pub fn task_hours_terms(&self, task_id: u32) -> (res: Vec<FloatBits>)
        ensures
            res@ == hours_of_task(self.timesheets@, task_id),
    {
        let ghost ts = self.timesheets@;
        let n = self.timesheets.len();
        let mut res: Vec<FloatBits> = Vec::new();
        let mut i: usize = 0;
        while i < n
            invariant
                n == ts.len(),
                ts == self.timesheets@,
                i <= n,
                res@ == hours_of_task(ts.take(i as int), task_id),
            decreases n - i,
        {
            if self.timesheets[i].task_id == task_id {
                res.push(self.timesheets[i].hours);
            }
            assert(ts.take(i + 1).drop_last() =~= ts.take(i as int));
            i = i + 1;
        }
        assert(ts.take(n as int) =~= ts);
        res
    }

    /// A member's timesheets, in booking order (for "my work").
    pub fn member_timesheets(&self, member_id: u32) -> (res: Vec<&Timesheet>)
        ensures
            res@.map_values(|r: &Timesheet| *r) == self.timesheets@.filter(|t: Timesheet| t.member_id == member_id),
    {
        let ghost ts = self.timesheets@;
        let ghost p = |t: Timesheet| t.member_id == member_id;
        let n = self.timesheets.len();
        let mut res: Vec<&Timesheet> = Vec::new();
        let mut i: usize = 0;
        assert(res@.map_values(|r: &Timesheet| *r) =~= Seq::empty());
        assert(ts.take(0).filter(p) =~= Seq::empty()) by {
            reveal(Seq::filter);
        }
        while i < n
            invariant
                n == ts.len(),
                ts == self.timesheets@,
                p == (|t: Timesheet| t.member_id == member_id),
                i <= n,
                res@.map_values(|r: &Timesheet| *r) == ts.take(i as int).filter(p),
            decreases n - i,
        {
            let ghost before = res@;
            if self.timesheets[i].member_id == member_id {
                res.push(&self.timesheets[i]);
                assert(res@.map_values(|r: &Timesheet| *r) =~= before.map_values(|r: &Timesheet| *r).push(ts[i as int]));
            }
            proof {
                reveal(Seq::filter);
                assert(ts.take(i + 1).drop_last() =~= ts.take(i as int));
            }
            i = i + 1;
        }
        assert(ts.take(n as int) =~= ts);
        res
    }

    /// The tasks assigned to a member, in order (for "my work").
    pub fn member_tasks(&self, member_id: u32) -> (res: Vec<&Task>)
        ensures
            res@.map_values(|r: &Task| *r) == self.tasks@.filter(|t: Task| t.assignee == Some(member_id)),
    {
        let ghost ts = self.tasks@;
        let ghost p = |t: Task| t.assignee == Some(member_id);
        let n = self.tasks.len();
        let mut res: Vec<&Task> = Vec::new();
        let mut i: usize = 0;
        assert(res@.map_values(|r: &Task| *r) =~= Seq::empty());
        assert(ts.take(0).filter(p) =~= Seq::empty()) by {
            reveal(Seq::filter);
        }
        while i < n
            invariant
                n == ts.len(),
                ts == self.tasks@,
                p == (|t: Task| t.assignee == Some(member_id)),
                i <= n,
                res@.map_values(|r: &Task| *r) == ts.take(i as int).filter(p),
            decreases n - i,
        {
            let assigned = match self.tasks[i].assignee {
                Some(a) => a == member_id,
                None => false,
            };
            let ghost before = res@;
            if assigned {
                res.push(&self.tasks[i]);
                assert(res@.map_values(|r: &Task| *r) =~= before.map_values(|r: &Task| *r).push(ts[i as int]));
            }
            proof {
                reveal(Seq::filter);
                assert(ts.take(i + 1).drop_last() =~= ts.take(i as int));
            }
            i = i + 1;
        }
        assert(ts.take(n as int) =~= ts);
        res
    }

    /// Progress of a project: `(tasks done, tasks)`, each count cast to `u32`.
    pub fn project_progress(&self, project_id: u32) -> (res: (u32, u32))
        ensures
            res.0 == tasks_done_in(self.tasks@, project_id) as u32,
            res.1 == tasks_in(self.tasks@, project_id) as u32,
    {
        let ghost ts = self.tasks@;
        let n = self.tasks.len();
        let mut total: usize = 0;
        let mut done: usize = 0;
        let mut i: usize = 0;
        while i < n
            invariant
                n == ts.len(),
                ts == self.tasks@,
                i <= n,
                total == tasks_in(ts.take(i as int), project_id),
                done == tasks_done_in(ts.take(i as int), project_id),
                done <= total <= i,
            decreases n - i,
        {
            if self.tasks[i].project_id == project_id {
                total = total + 1;
                let st = chars_of(self.tasks[i].status.as_str());
                if chars_eq_str(st.as_slice(), T_DONE) {
                    done = done + 1;
                }
            }
            assert(ts.take(i + 1).drop_last() =~= ts.take(i as int));
            i = i + 1;
        }
        assert(ts.take(n as int) =~= ts);
        (done as u32, total as u32)
    }

    /// The terms of a project's cost, in booking order: for each timesheet
    /// whose task (the first task with its id) belongs to the project, its
    /// hours and the hourly rate of its member (the first member with its
    /// id), when there is one. The cost is the sum of hours times rate, a
    /// missing rate counting as 0.
    pub fn project_cost_terms(&self, project_id: u32) -> (res: Vec<(FloatBits, Option<FloatBits>)>)
        ensures
            res@ == cost_terms(self.timesheets@, self.tasks@, self.members@, project_id),
    {
        let ghost ts = self.timesheets@;
        let n = self.timesheets.len();
        let mut res: Vec<(FloatBits, Option<FloatBits>)> = Vec::new();
        let mut i: usize = 0;
        while i < n
            invariant
                n == ts.len(),
                ts == self.timesheets@,
                i <= n,
                res@ == cost_terms(ts.take(i as int), self.tasks@, self.members@, project_id),
            decreases n - i,
        {
            let sheet = &self.timesheets[i];
            let in_project = match self.task_by_id(sheet.task_id) {
                Some(t) => t.project_id == project_id,
                None => false,
            };
            if in_project {
                let rate = match self.member_by_id(sheet.member_id) {
                    Some(m) => Some(m.rate),
                    None => None,
                };
                res.push((sheet.hours, rate));
            }
            assert(ts.take(i + 1).drop_last() =~= ts.take(i as int));
            i = i + 1;
        }
        assert(ts.take(n as int) =~= ts);
        res
    }

    /// The terms of a project's estimate deviation: for each task of the
    /// project, in order, its estimate and the hours booked on its id. The
    /// deviation is the sum over the tasks of the sums of their hours, minus
    /// the sum of the estimates.
    pub fn estimate_deviation_terms(&self, project_id: u32) -> (res: Vec<(FloatBits, Vec<FloatBits>)>)
        ensures
            res@.len() == project_tasks(self.tasks@, project_id).len(),
            forall|i: int|
                0 <= i < res@.len() ==> (#[trigger] res@[i]).0 == project_tasks(self.tasks@, project_id)[i].estimate_hours
                    && res@[i].1@ == hours_of_task(
                    self.timesheets@,
                    project_tasks(self.tasks@, project_id)[i].id,
                ),
    {
        let ghost ts = self.tasks@;
        let n = self.tasks.len();
        let mut res: Vec<(FloatBits, Vec<FloatBits>)> = Vec::new();
        let mut i: usize = 0;
        while i < n
            invariant
                n == ts.len(),
                ts == self.tasks@,
                i <= n,
                res@.len() == project_tasks(ts.take(i as int), project_id).len(),
                forall|j: int|
                    0 <= j < res@.len() ==> (#[trigger] res@[j]).0 == project_tasks(ts.take(i as int), project_id)[j].estimate_hours
                        && res@[j].1@ == hours_of_task(
                        self.timesheets@,
                        project_tasks(ts.take(i as int), project_id)[j].id,
                    ),
            decreases n - i,
        {
            let ghost before = project_tasks(ts.take(i as int), project_id);
            assert(ts.take(i + 1).drop_last() =~= ts.take(i as int));
            if self.tasks[i].project_id == project_id {
                let hours = self.task_hours_terms(self.tasks[i].id);
                res.push((self.tasks[i].estimate_hours, hours));
                assert(project_tasks(ts.take(i + 1), project_id) == before.push(ts[i as int]));
            }
            i = i + 1;
        }
        assert(ts.take(n as int) =~= ts);
        res
    }

    /// Overdue tasks: not done, with a deadline before `today` (dates
    /// compare as strings, byte by byte).
    pub fn overdue_tasks(&self, today: &str) -> (res: Vec<Task>)
        ensures
            res@ == overdue_of(self.tasks@, today@),
    {
        let ghost ts = self.tasks@;
        let ghost p = |t: Task| is_overdue(t, today@);
        let n = self.tasks.len();
        let mut res: Vec<Task> = Vec::new();
        let mut i: usize = 0;
        assert(ts.take(0).filter(p) =~= Seq::empty()) by {
            reveal(Seq::filter);
        }
        let tb = today.as_bytes();
        while i < n
            invariant
                n == ts.len(),
                ts == self.tasks@,
                p == (|t: Task| is_overdue(t, today@)),
                tb@ == encode_utf8(today@),
                i <= n,
                res@ == ts.take(i as int).filter(p),
            decreases n - i,
        {
            let t = &self.tasks[i];
            let st = chars_of(t.status.as_str());
            let done = chars_eq_str(st.as_slice(), T_DONE);
            let late = bytes_less(t.deadline.as_str().as_bytes(), tb);
            if !done && late {
                res.push(t.copy());
            }
            proof {
                reveal(Seq::filter);
                assert(ts.take(i + 1).drop_last() =~= ts.take(i as int));
            }
            i = i + 1;
        }
        assert(ts.take(n as int) =~= ts);
        res
    }
}

/// The hours booked on a task, in booking order.
pub open spec fn hours_of_task(ts: Seq<Timesheet>, task_id: u32) -> Seq<FloatBits>
    decreases ts.len(),
{
    if ts.len() == 0 {
        Seq::empty()
    } else {
        let r = hours_of_task(ts.drop_last(), task_id);
        if ts.last().task_id == task_id {
            r.push(ts.last().hours)
        } else {
            r
        }
    }
}

/// The tasks of a project, in order.
pub open spec fn project_tasks(ts: Seq<Task>, project_id: u32) -> Seq<Task>
    decreases ts.len(),
{
    if ts.len() == 0 {
        Seq::empty()
    } else {
        let r = project_tasks(ts.drop_last(), project_id);
        if ts.last().project_id == project_id {
            r.push(ts.last())
        } else {
            r
        }
    }
}

/// Number of tasks of a project.
pub open spec fn tasks_in(ts: Seq<Task>, project_id: u32) -> nat
    decreases ts.len(),
{
    if ts.len() == 0 {
        0
    } else {
        tasks_in(ts.drop_last(), project_id) + if ts.last().project_id == project_id {
            1nat
        } else {
            0nat
        }
    }
}

/// Number of tasks of a project whose status is done (`完成`).
pub open spec fn tasks_done_in(ts: Seq<Task>, project_id: u32) -> nat
    decreases ts.len(),
{
    if ts.len() == 0 {
        0
    } else {
        tasks_done_in(ts.drop_last(), project_id) + if ts.last().project_id == project_id
            && ts.last().status@ == T_DONE@ {
            1nat
        } else {
            0nat
        }
    }
}

/// The `(hours, rate)` terms of a project's cost.
pub open spec fn cost_terms(
    ts: Seq<Timesheet>,
    tasks: Seq<Task>,
    members: Seq<Member>,
    project_id: u32,
) -> Seq<(FloatBits, Option<FloatBits>)>
    decreases ts.len(),
{
    if ts.len() == 0 {
        Seq::empty()
    } else {
        let r = cost_terms(ts.drop_last(), tasks, members, project_id);
        let sheet = ts.last();
        match find_first(tasks, task_id_is(sheet.task_id)) {
            Some(t) => if t.project_id == project_id {
                r.push(
                    (
                        sheet.hours,
                        match find_first(members, member_id_is(sheet.member_id)) {
                            Some(m) => Some(m.rate),
                            None => None,
                        },
                    ),
                )
            } else {
                r
            },
            None => r,
        }
    }
}

/// Lexicographic order of byte strings (the order of `str`).
pub open spec fn bytes_lt(a: Seq<u8>, b: Seq<u8>) -> bool
    decreases a.len(),
{
    if b.len() == 0 {
        false
    } else if a.len() == 0 {
        true
    } else if a[0] != b[0] {
        a[0] < b[0]
    } else {
        bytes_lt(a.drop_first(), b.drop_first())
    }
}

/// Whether a task is overdue on `today`: not done, and its deadline is
/// before `today` as strings.
pub open spec fn is_overdue(t: Task, today: Seq<char>) -> bool {
    t.status@ != T_DONE@ && bytes_lt(encode_utf8(t.deadline@), encode_utf8(today))
}

/// The overdue tasks on `today`, in order.
pub open spec fn overdue_of(ts: Seq<Task>, today: Seq<char>) -> Seq<Task> {
    ts.filter(|t: Task| is_overdue(t, today))
}

/// Lexicographic comparison of byte strings.
pub fn bytes_less(a: &[u8], b: &[u8]) -> (res: bool)
    ensures
        res == bytes_lt(a@, b@),
{
    let mut i: usize = 0;
    assert(a@.skip(0) =~= a@);
    assert(b@.skip(0) =~= b@);
    while i < a.len() && i < b.len() && a[i] == b[i]
        invariant
            i <= a@.len(),
            i <= b@.len(),
            bytes_lt(a@.skip(i as int), b@.skip(i as int)) == bytes_lt(a@, b@),
        decreases a@.len() - i,
    {
        assert(a@.skip(i as int).drop_first() =~= a@.skip(i + 1));
        assert(b@.skip(i as int).drop_first() =~= b@.skip(i + 1));
        i = i + 1;
    }
    let ghost x = a@.skip(i as int);
    let ghost y = b@.skip(i as int);
    if i == b.len() {
        assert(y.len() == 0);
        false
    } else if i == a.len() {
        assert(x.len() == 0);
        true
    } else {
        assert(x[0] == a@[i as int] && y[0] == b@[i as int]);
        a[i] < b[i]
    }
}

/// The hours booked by a member, in booking order.
pub open spec fn hours_of_member(ts: Seq<Timesheet>, member_id: u32) -> Seq<FloatBits>
    decreases ts.len(),
{
    if ts.len() == 0 {
        Seq::empty()
    } else {
        let r = hours_of_member(ts.drop_last(), member_id);
        if ts.last().member_id == member_id {
            r.push(ts.last().hours)
        } else {
            r
        }
    }
}

/// The members that booked hours, each once, in the order of their first booking.
pub open spec fn load_ids(ts: Seq<Timesheet>) -> Seq<u32>
    decreases ts.len(),
{
    if ts.len() == 0 {
        Seq::empty()
    } else {
        let r = load_ids(ts.drop_last());
        if r.contains(ts.last().member_id) {
            r
        } else {
            r.push(ts.last().member_id)
        }
    }
}

/// The name of the first member with an id, or the empty text.
pub open spec fn member_name_or_empty(members: Seq<Member>, id: u32) -> Seq<char> {
    match find_first(members, member_id_is(id)) {
        Some(m) => m.name@,
        None => Seq::empty(),
    }
}

impl Store {
    fn member_hours_terms(&self, member_id: u32) -> (res: Vec<FloatBits>)
        ensures
            res@ == hours_of_member(self.timesheets@, member_id),
    {
        let ghost ts = self.timesheets@;
        let n = self.timesheets.len();
        let mut res: Vec<FloatBits> = Vec::new();
        let mut i: usize = 0;
        while i < n
            invariant
                n == ts.len(),
                ts == self.timesheets@,
                i <= n,
                res@ == hours_of_member(ts.take(i as int), member_id),
            decreases n - i,
        {
            if self.timesheets[i].member_id == member_id {
                res.push(self.timesheets[i].hours);
            }
            assert(ts.take(i + 1).drop_last() =~= ts.take(i as int));
            i = i + 1;
        }
        assert(ts.take(n as int) =~= ts);
        res
    }

    /// Member load: for each member that booked hours, in the order of the
    /// first booking, the member id, the member's name (empty when no member
    /// has the id) and the hours booked, in booking order. A member's load
    /// is the first of the hours plus each following one in turn.
    pub fn member_load_groups(&self) -> (res: Vec<(u32, String, Vec<FloatBits>)>)
        ensures
            res@.len() == load_ids(self.timesheets@).len(),
            forall|i: int|
                0 <= i < res@.len() ==> {
                    let id = load_ids(self.timesheets@)[i];
                    &&& (#[trigger] res@[i]).0 == id
                    &&& res@[i].1@ == member_name_or_empty(self.members@, id)
                    &&& res@[i].2@ == hours_of_member(self.timesheets@, id)
                },
    {
        let ghost ts = self.timesheets@;
        let n = self.timesheets.len();
        let mut ids: Vec<u32> = Vec::new();
        let mut i: usize = 0;
        while i < n
            invariant
                n == ts.len(),
                ts == self.timesheets@,
                i <= n,
                ids@ == load_ids(ts.take(i as int)),
            decreases n - i,
        {
            let id = self.timesheets[i].member_id;
            let mut seen = false;
            let mut j: usize = 0;
            while j < ids.len()
                invariant
                    j <= ids@.len(),
                    seen <==> exists|k: int| 0 <= k < j && ids@[k] == id,
                decreases ids@.len() - j,
            {
                if ids[j] == id {
                    seen = true;
                }
                j = j + 1;
            }
            assert(seen <==> ids@.contains(id));
            assert(ts.take(i + 1).drop_last() =~= ts.take(i as int));
            if !seen {
                ids.push(id);
            }
            i = i + 1;
        }
        assert(ts.take(n as int) =~= ts);
        let mut res: Vec<(u32, String, Vec<FloatBits>)> = Vec::new();
        let mut g: usize = 0;
        while g < ids.len()
            invariant
                ids@ == load_ids(self.timesheets@),
                g <= ids@.len(),
                res@.len() == g,
                forall|i: int|
                    0 <= i < g ==> {
                        let id = ids@[i];
                        &&& (#[trigger] res@[i]).0 == id
                        &&& res@[i].1@ == member_name_or_empty(self.members@, id)
                        &&& res@[i].2@ == hours_of_member(self.timesheets@, id)
                    },
            decreases ids@.len() - g,
        {
            let id = ids[g];
            let name = match self.member_by_id(id) {
                Some(m) => m.name.clone(),
                None => String::new(),
            };
            let hours = self.member_hours_terms(id);
            res.push((id, name, hours));
            g = g + 1;
        }
        res
    }
}

/// Bit pattern of 300.0.
pub const RATE_PM_BITS: u64 = 0x4072c00000000000;
/// Bit pattern of 200.0.
pub const RATE_DEV_BITS: u64 = 0x4069000000000000;
/// Bit pattern of 150.0.
pub const RATE_QA_BITS: u64 = 0x4062c00000000000;
/// Bit pattern of 100000.0.
pub const DEMO_BUDGET_BITS: u64 = 0x40f86a0000000000;
/// Bit pattern of 40.0.
pub const DEMO_ESTIMATE_BITS: u64 = 0x4044000000000000;

/// Whether `m` is the demo account with these fields; its password hash is
/// the hash of `plain`.
pub open spec fn is_demo_member(
    m: Member,
    id: u32,
    username: Seq<char>,
    plain: Seq<char>,
    name: Seq<char>,
    role: Role,
    rate_bits: u64,
) -> bool {
    &&& m.id == id
    &&& m.username@ == username
    &&& m.password_hash@ == password_hash(plain)
    &&& m.name@ == name
    &&& m.role == role
    &&& m.rate == FloatBits { bits: rate_bits }
}

/// The demo project.
pub open spec fn is_demo_project(p: Project) -> bool {
    &&& p.id == 1
    &&& p.name@ == "智慧校园 App"@
    &&& p.desc@ == "示例项目：校园信息门户与消息中心"@
    &&& p.budget == FloatBits { bits: DEMO_BUDGET_BITS }
    &&& p.start@ == "2026-09-01"@
    &&& p.deadline@ == "2026-12-31"@
    &&& p.status@ == PRJ_ACTIVE@
}

/// The demo task: assigned to the developer, in the demo project.
pub open spec fn is_demo_task(t: Task) -> bool {
    &&& t.id == 1
    &&& t.project_id == 1
    &&& t.title@ == "用户登录模块"@
    &&& t.assignee == Some(2u32)
    &&& t.priority@ == P_HIGH@
    &&& t.status@ == T_TODO@
    &&& t.estimate_hours == FloatBits { bits: DEMO_ESTIMATE_BITS }
    &&& t.deadline@ == "2026-09-15"@
}

fn demo_member(id: u32, username: &str, plain: &str, name: &str, role: Role, rate_bits: u64) -> (res: Member)
    ensures
        is_demo_member(res, id, username@, plain@, name@, role, rate_bits),
{
    Member {
        id,
        username: String::from_str(username),
        password_hash: hash_password(plain),
        name: String::from_str(name),
        role,
        rate: FloatBits { bits: rate_bits },
    }
}

/// The store after seeding (see `Store::seed`).
pub open spec fn seed_outcome(before: Store, after: Store) -> bool {
    &&& before.members@.len() > 0 ==> after == before
    &&& before.members@.len() == 0 ==> {
        &&& after.members@.len() == 3
        &&& is_demo_member(after.members@[0], 1, "pm1"@, "pm123"@, "王经理"@, Role::Pm, RATE_PM_BITS)
        &&& is_demo_member(after.members@[1], 2, "dev1"@, "dv123"@, "李开发"@, Role::Dev, RATE_DEV_BITS)
        &&& is_demo_member(after.members@[2], 3, "qa1"@, "qa123"@, "赵测试"@, Role::Qa, RATE_QA_BITS)
        &&& after.next_id == 4
        &&& after.projects@.len() == before.projects@.len() + 1
        &&& after.projects@.drop_last() == before.projects@
        &&& is_demo_project(after.projects@.last())
        &&& after.tasks@.len() == before.tasks@.len() + 1
        &&& after.tasks@.drop_last() == before.tasks@
        &&& is_demo_task(after.tasks@.last())
        &&& after.timesheets == before.timesheets
        &&& after.path == before.path
    }
    &&& after.members@.len() > 0
}

impl Store {
    /// Writes the demo data into an empty store: three accounts
    /// (`pm1`/`pm123` manager, `dev1`/`dv123` developer, `qa1`/`qa123`
    /// tester), one project and one task. A store that has members is left
    /// as it is, so seeding twice changes nothing more.
    pub fn seed(&mut self)
        ensures
            seed_outcome(*old(self), *final(self)),
    {
        if self.members.len() > 0 {
            return;
        }
        self.members.push(demo_member(1, "pm1", "pm123", "王经理", Role::Pm, RATE_PM_BITS));
        self.members.push(demo_member(2, "dev1", "dv123", "李开发", Role::Dev, RATE_DEV_BITS));
        self.members.push(demo_member(3, "qa1", "qa123", "赵测试", Role::Qa, RATE_QA_BITS));
        self.next_id = 4;
        self.projects.push(
            Project {
                id: 1,
                name: String::from_str("智慧校园 App"),
                desc: String::from_str("示例项目：校园信息门户与消息中心"),
                budget: FloatBits { bits: DEMO_BUDGET_BITS },
                start: String::from_str("2026-09-01"),
                deadline: String::from_str("2026-12-31"),
                status: String::from_str(PRJ_ACTIVE),
            },
        );
        self.tasks.push(
            Task {
                id: 1,
                project_id: 1,
                title: String::from_str("用户登录模块"),
                assignee: Some(2),
                priority: String::from_str(P_HIGH),
                status: String::from_str(T_TODO),
                estimate_hours: FloatBits { bits: DEMO_ESTIMATE_BITS },
                deadline: String::from_str("2026-09-15"),
            },
        );
        assert(self.projects@.drop_last() =~= old(self).projects@);
        assert(self.tasks@.drop_last() =~= old(self).tasks@);
    }
}

// ---------------- dates ----------------

/// Integer division rounding toward zero (Rust's `/` on signed integers), for `b > 0`.
pub open spec fn tdiv(a: int, b: int) -> int {
    if a >= 0 {
        a / b
    } else {
        -((-a) / b)
    }
}

/// Year, month and day of a day count since 1970-01-01
/// (Howard Hinnant's `civil_from_days`, with Rust's division).
pub open spec fn civil_from_days(days: int) -> (int, int, int) {
    let z = days + 719468;
    let era = tdiv(if z >= 0 {
        z
    } else {
        z - 146096
    }, 146097);
    let doe = z - era * 146097;
    let yoe = tdiv(doe - tdiv(doe, 1460) + tdiv(doe, 36524) - tdiv(doe, 146096), 365);
    let y = yoe + era * 400;
    let doy = doe - (365 * yoe + tdiv(yoe, 4) - tdiv(yoe, 100));
    let mp = tdiv(5 * doy + 2, 153);
    let d = doy - tdiv(153 * mp + 2, 5) + 1;
    let m = if mp < 10 {
        mp + 3
    } else {
        mp - 9
    };
    let y2 = if m <= 2 {
        y + 1
    } else {
        y
    };
    (y2, m, d)
}

/// What `{:0w}` prints for a signed integer: zero-padded to `w` characters,
/// a minus sign counting toward the width.
pub open spec fn signed_pad(v: int, w: nat) -> Seq<char> {
    if v >= 0 {
        zero_pad(decimal(v as nat), w)
    } else {
        "-"@ + zero_pad(decimal((-v) as nat), (w - 1) as nat)
    }
}

/// The UTC date `YYYY-MM-DD` of a time in seconds since the epoch.
pub open spec fn iso_date(secs: u64) -> Seq<char> {
    let (y, m, d) = civil_from_days((secs / 86400) as int);
    signed_pad(y, 4) + "-"@ + signed_pad(m, 2) + "-"@ + signed_pad(d, 2)
}

fn push_signed_padded(out: &mut String, v: i64, w: usize)
    requires
        1 <= w,
        v > i64::MIN,
    ensures
        final(out)@ == old(out)@ + signed_pad(v as int, w as nat),
{
    if v >= 0 {
        push_decimal_padded(out, v as u128, w);
    } else {
        out.append("-");
        let a: i64 = -v;
        push_decimal_padded(out, a as u128, w - 1);
        assert(out@ =~= old(out)@ + signed_pad(v as int, w as nat));
    }
}

/// The UTC date `YYYY-MM-DD` of a time in seconds since the epoch.
pub fn date_of_secs(secs: u64) -> (res: String)
    ensures
        res@ == iso_date(secs),
{
    let days: i64 = (secs / 86400) as i64;
    let z: i64 = days + 719468;
    let era: i64 = (if z >= 0 {
        z
    } else {
        z - 146096
    }) / 146097;
    let doe: i64 = z - era * 146097;
    assert(0 <= doe < 146097);
    let yoe: i64 = (doe - doe / 1460 + doe / 36524 - doe / 146096) / 365;
    assert(-1 <= yoe <= 401);
    let y: i64 = yoe + era * 400;
    let doy: i64 = doe - (365 * yoe + yoe / 4 - yoe / 100);
    let mp: i64 = (5 * doy + 2) / 153;
    let d: i64 = doy - (153 * mp + 2) / 5 + 1;
    let m: i64 = if mp < 10 {
        mp + 3
    } else {
        mp - 9
    };
    let y2: i64 = if m <= 2 {
        y + 1
    } else {
        y
    };
    assert((y2 as int, m as int, d as int) == civil_from_days((secs / 86400) as int));
    let mut out = String::new();
    push_signed_padded(&mut out, y2, 4);
    out.append("-");
    push_signed_padded(&mut out, m, 2);
    out.append("-");
    push_signed_padded(&mut out, d, 2);
    assert(out@ =~= iso_date(secs));
    out
}

impl Store {
    /// Today's date `YYYY-MM-DD` (UTC) by the system clock.
    pub fn today_iso() -> (res: String)
        ensures
            exists|secs: u64| res@ == iso_date(secs),
    {
        date_of_secs(now_secs())
    }
}

// ---------------- laws ----------------

/// Seeding a second time changes nothing.
pub proof fn law_seed_idempotent(s0: Store, s1: Store, s2: Store)
    requires
        seed_outcome(s0, s1),
        seed_outcome(s1, s2),
    ensures
        s2 == s1,
{
}

/// No two members share a user name.
pub open spec fn usernames_distinct(ms: Seq<Member>) -> bool {
    forall|i: int, j: int| 0 <= i < j < ms.len() ==> ms[i].username@ != ms[j].username@
}

/// Adding a member keeps user names distinct, and the new member is then
/// the one found by its user name.
pub proof fn law_add_member_keeps_usernames_distinct(ms: Seq<Member>, m: Member)
    requires
        usernames_distinct(ms),
        add_member_error(ms, m) is None,
    ensures
        usernames_distinct(ms.push(m)),
        find_first(ms.push(m), has_username(m.username@)) == Some(m),
{
    let n = ms.push(m);
    assert forall|i: int, j: int| 0 <= i < j < n.len() implies n[i].username@ != n[j].username@ by {
        if j == n.len() - 1 {
            assert(n[i] == ms[i]);
        } else {
            assert(n[i] == ms[i] && n[j] == ms[j]);
        }
    }
    assert forall|j: int| 0 <= j < ms.len() implies !has_username(m.username@)(#[trigger] n[j]) by {
        assert(n[j] == ms[j]);
    }
    lemma_first_where(n, has_username(m.username@), ms.len() as int);
}

/// After a task's status is set, the task found by its id has that status.
pub proof fn law_status_update_read_back(before: Seq<Task>, after: Seq<Task>, task_id: u32, status: Seq<char>)
    requires
        status_updated(before, after, task_id, status),
        find_first(before, task_id_is(task_id)) is Some,
    ensures
        find_first(after, task_id_is(task_id)) matches Some(t) && t.status@ == status && t.id == task_id,
{
    let k = first_where(before, task_id_is(task_id));
    lemma_first_where_props(before, task_id_is(task_id));
    assert forall|j: int| 0 <= j < k implies !task_id_is(task_id)(#[trigger] after[j]) by {
        assert(after[j] == before[j]);
        assert(!task_id_is(task_id)(before[j]));
    }
    lemma_first_where(after, task_id_is(task_id), k as int);
}

/// `first_where` gives the first element that satisfies `p`.
pub proof fn lemma_first_where_props<T>(s: Seq<T>, p: spec_fn(T) -> bool)
    ensures
        first_where(s, p) <= s.len(),
        forall|j: int| 0 <= j < first_where(s, p) ==> !p(#[trigger] s[j]),
        first_where(s, p) < s.len() ==> p(s[first_where(s, p) as int]),
    decreases s.len(),
{
    if s.len() > 0 && !p(s[0]) {
        let t = s.drop_first();
        lemma_first_where_props(t, p);
        assert forall|j: int| 0 <= j < first_where(s, p) implies !p(#[trigger] s[j]) by {
            if j > 0 {
                assert(s[j] == t[j - 1]);
            }
        }
    }
}

/// A project never has more tasks done than tasks.
pub proof fn law_progress_done_at_most_total(ts: Seq<Task>, project_id: u32)
    ensures
        tasks_done_in(ts, project_id) <= tasks_in(ts, project_id),
    decreases ts.len(),
{
    if ts.len() > 0 {
        law_progress_done_at_most_total(ts.drop_last(), project_id);
    }
}

/// Overdue tasks are never done, and their deadline is before today.
pub proof fn law_overdue_not_done(ts: Seq<Task>, today: Seq<char>)
    ensures
        forall|i: int|
            0 <= i < overdue_of(ts, today).len() ==> {
                let t = #[trigger] overdue_of(ts, today)[i];
                t.status@ != T_DONE@ && bytes_lt(encode_utf8(t.deadline@), encode_utf8(today))
            },
{
    broadcast use vstd::seq_lib::group_filter_ensures;
}

/// A booking adds its hours, last, to the hours of its task.
pub proof fn law_booking_adds_hours(ts: Seq<Timesheet>, t: Timesheet)
    ensures
        hours_of_task(ts.push(t), t.task_id) == hours_of_task(ts, t.task_id).push(t.hours),
{
    assert(ts.push(t).drop_last() =~= ts);
}

/// The member load lists each member that booked hours exactly once.
pub proof fn law_load_ids_distinct(ts: Seq<Timesheet>)
    ensures
        load_ids(ts).no_duplicates(),
        forall|i: int| 0 <= i < ts.len() ==> load_ids(ts).contains(#[trigger] ts[i].member_id),
    decreases ts.len(),
{
    if ts.len() > 0 {
        let t = ts.drop_last();
        law_load_ids_distinct(t);
        let r = load_ids(t);
        assert forall|i: int| 0 <= i < ts.len() implies load_ids(ts).contains(#[trigger] ts[i].member_id) by {
            if i < ts.len() - 1 {
                assert(t[i] == ts[i]);
                assert(r.contains(t[i].member_id));
                if !r.contains(ts.last().member_id) {
                    let k = choose|k: int| 0 <= k < r.len() && r[k] == t[i].member_id;
                    assert(r.push(ts.last().member_id)[k] == r[k]);
                }
            } else {
                if !r.contains(ts.last().member_id) {
                    assert(r.push(ts.last().member_id)[r.len() as int] == ts.last().member_id);
                }
            }
        }
    }
}

/// Every task that is not done and whose deadline is byte-wise before
/// `today` is reported overdue; the overdue tasks are exactly those tasks,
/// in their order.
pub proof fn law_overdue_includes_every_late_task(ts: Seq<Task>, today: Seq<char>)
    ensures
        forall|i: int|
            0 <= i < ts.len() && ts[i].status@ != T_DONE@ && bytes_lt(encode_utf8(ts[i].deadline@), encode_utf8(today))
                ==> #[trigger] overdue_of(ts, today).contains(ts[i]),
        overdue_of(ts, today) == ts.filter(
            |t: Task| t.status@ != T_DONE@ && bytes_lt(encode_utf8(t.deadline@), encode_utf8(today)),
        ),
{
    let late = |t: Task| t.status@ != T_DONE@ && bytes_lt(encode_utf8(t.deadline@), encode_utf8(today));
    assert(late =~= (|t: Task| is_overdue(t, today)));
    assert forall|i: int|
        0 <= i < ts.len() && ts[i].status@ != T_DONE@ && bytes_lt(encode_utf8(ts[i].deadline@), encode_utf8(today))
            implies #[trigger] overdue_of(ts, today).contains(ts[i]) by {
        ts.lemma_filter_contains(late, i);
    }
}

/// The tasks of a project are exactly the tasks with its id, in order,
/// whatever their assignee or status; a task added to the list is added to
/// its project's tasks and to no other.
pub proof fn law_project_tasks_are_its_tasks(ts: Seq<Task>, project_id: u32, t: Task)
    ensures
        project_tasks(ts, project_id) == ts.filter(|x: Task| x.project_id == project_id),
        project_tasks(ts.push(t), project_id) == if t.project_id == project_id {
            project_tasks(ts, project_id).push(t)
        } else {
            project_tasks(ts, project_id)
        },
    decreases ts.len(),
{
    reveal(Seq::filter);
    if ts.len() > 0 {
        law_project_tasks_are_its_tasks(ts.drop_last(), project_id, t);
    }
    assert(ts.push(t).drop_last() =~= ts);
}

/// The progress counts of a project: the number of its tasks, and of those
/// that are done (`完成`), whatever their assignee. A task added to the
/// list adds one to its project's count, and one to its done count when it
/// is done; other projects' counts stay.
pub proof fn law_progress_counts_every_task(ts: Seq<Task>, project_id: u32, t: Task)
    ensures
        tasks_in(ts, project_id) == ts.filter(|x: Task| x.project_id == project_id).len(),
        tasks_done_in(ts, project_id) == ts.filter(
            |x: Task| x.project_id == project_id && x.status@ == T_DONE@,
        ).len(),
        tasks_in(Seq::<Task>::empty(), project_id) == 0,
        tasks_in(ts.push(t), project_id) == tasks_in(ts, project_id) + if t.project_id == project_id {
            1int
        } else {
            0int
        },
        tasks_done_in(ts.push(t), project_id) == tasks_done_in(ts, project_id) + if t.project_id
            == project_id && t.status@ == T_DONE@ {
            1int
        } else {
            0int
        },
    decreases ts.len(),
{
    reveal(Seq::filter);
    if ts.len() > 0 {
        law_progress_counts_every_task(ts.drop_last(), project_id, t);
    }
    assert(ts.push(t).drop_last() =~= ts);
}

/// The hours of a task are the hours of the timesheets booked on it, and
/// the hours of a member those of the timesheets the member booked, in
/// booking order.
pub proof fn law_hours_are_bookings(ts: Seq<Timesheet>, task_id: u32, member_id: u32)
    ensures
        hours_of_task(ts, task_id) == ts.filter(|t: Timesheet| t.task_id == task_id).map_values(|t: Timesheet| t.hours),
        hours_of_member(ts, member_id) == ts.filter(|t: Timesheet| t.member_id == member_id).map_values(
            |t: Timesheet| t.hours,
        ),
    decreases ts.len(),
{
    reveal(Seq::filter);
    if ts.len() > 0 {
        law_hours_are_bookings(ts.drop_last(), task_id, member_id);
        let pt = |t: Timesheet| t.task_id == task_id;
        let pm = |t: Timesheet| t.member_id == member_id;
        let h = |t: Timesheet| t.hours;
        let ft = ts.drop_last().filter(pt);
        let fm = ts.drop_last().filter(pm);
        assert(ft.push(ts.last()).map_values(h) =~= ft.map_values(h).push(ts.last().hours));
        assert(fm.push(ts.last()).map_values(h) =~= fm.map_values(h).push(ts.last().hours));
    } else {
        assert(ts.filter(|t: Timesheet| t.task_id == task_id).map_values(|t: Timesheet| t.hours) =~= Seq::empty());
        assert(ts.filter(|t: Timesheet| t.member_id == member_id).map_values(|t: Timesheet| t.hours) =~= Seq::empty());
    }
}

/// Every member in the load list booked some hours.
pub proof fn law_load_ids_are_bookers(ts: Seq<Timesheet>)
    ensures
        forall|k: int|
            0 <= k < load_ids(ts).len() ==> exists|i: int| 0 <= i < ts.len() && #[trigger] ts[i].member_id
                == #[trigger] load_ids(ts)[k],
    decreases ts.len(),
{
    if ts.len() > 0 {
        let t = ts.drop_last();
        law_load_ids_are_bookers(t);
        let r = load_ids(t);
        assert forall|k: int| 0 <= k < load_ids(ts).len() implies exists|i: int| 0 <= i < ts.len() && #[trigger] ts[i].member_id
            == #[trigger] load_ids(ts)[k] by {
            if k < r.len() {
                assert(load_ids(ts)[k] == r[k]);
                let i = choose|i: int| 0 <= i < t.len() && #[trigger] t[i].member_id == r[k];
                assert(ts[i] == t[i]);
            } else {
                assert(ts[ts.len() - 1].member_id == load_ids(ts)[k]);
            }
        }
    }
}

/// The name shown for a member id is the name of the first member with that
/// id (the `j`-th when no member before it has the id), and empty when no
/// member has it.
pub proof fn law_member_name_by_id(members: Seq<Member>, id: u32, j: int)
    requires
        0 <= j < members.len() ==> members[j].id == id && forall|k: int| 0 <= k < j ==> members[k].id != id,
        !(0 <= j < members.len()) ==> forall|k: int| 0 <= k < members.len() ==> members[k].id != id,
    ensures
        member_name_or_empty(members, id) == if 0 <= j < members.len() {
            members[j].name@
        } else {
            Seq::empty()
        },
{
    if 0 <= j < members.len() {
        assert forall|k: int| 0 <= k < j implies !member_id_is(id)(#[trigger] members[k]) by {}
        lemma_first_where(members, member_id_is(id), j);
    } else {
        assert forall|k: int| 0 <= k < members.len() implies !member_id_is(id)(#[trigger] members[k]) by {}
        lemma_first_where(members, member_id_is(id), members.len() as int);
    }
}

} // verus!
