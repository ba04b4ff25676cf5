//! Data model: members, projects, tasks and timesheets.
//!
//! Dates are `"YYYY-MM-DD"` strings, whose string order is their time order.
//! Amounts of money and of hours are IEEE 754 binary64 values; the library
//! carries them as bit patterns (`FloatBits`) and does no arithmetic on them.

use vstd::prelude::*;
use crate::text::chars_eq_str;

pub mod consts;

verus! {

/// A member's role in the team.
#[derive(Debug, Clone, Copy, PartialEq, Eq, Structural)]
pub enum Role {
    /// Project manager: creates projects, assigns tasks, sees the dashboard.
    Pm,
    /// Developer: takes tasks, updates their status, books hours.
    Dev,
    /// Tester: books test hours, follows task quality.
    Qa,
}

/// Display name of a role.
pub open spec fn role_name(r: Role) -> Seq<char> {
    match r {
        Role::Pm => "项目经理"@,
        Role::Dev => "开发"@,
        Role::Qa => "测试"@,
    }
}

/// The role that a name or identifier denotes.
pub open spec fn role_from_name(s: Seq<char>) -> Option<Role> {
    if s == "Pm"@ || s == "pm"@ || s == "项目经理"@ {
        Some(Role::Pm)
    } else if s == "Dev"@ || s == "dev"@ || s == "开发"@ {
        Some(Role::Dev)
    } else if s == "Qa"@ || s == "qa"@ || s == "测试"@ {
        Some(Role::Qa)
    } else {
        None
    }
}

impl Role {
    /// Display name of the role.
    pub fn as_str(&self) -> (res: &'static str)
        ensures
            res@ == role_name(*self),
    {
        match self {
            Role::Pm => "项目经理",
            Role::Dev => "开发",
            Role::Qa => "测试",
        }
    }

    /// Parses a display name or an identifier (`Pm`/`pm`, `Dev`/`dev`, `Qa`/`qa`).
    pub fn from_str(s: &str) -> (res: Option<Role>)
        ensures
            res == role_from_name(s@),
    {
        let cs = crate::text::chars_of(s);
        if chars_eq_str(&cs, "Pm") || chars_eq_str(&cs, "pm") || chars_eq_str(&cs, "项目经理") {
            Some(Role::Pm)
        } else if chars_eq_str(&cs, "Dev") || chars_eq_str(&cs, "dev") || chars_eq_str(
            &cs,
            "开发",
        ) {
            Some(Role::Dev)
        } else if chars_eq_str(&cs, "Qa") || chars_eq_str(&cs, "qa") || chars_eq_str(&cs, "测试") {
            Some(Role::Qa)
        } else {
            None
        }
    }

    /// Whether the role is project manager (the permission check).
    pub fn is_pm(&self) -> (res: bool)
        ensures
            res == (*self == Role::Pm),
    {
        match self {
            Role::Pm => true,
            _ => false,
        }
    }
}

/// A role's display name parses back to the role.
pub proof fn lemma_role_name_roundtrip(r: Role)
    ensures
        role_from_name(role_name(r)) == Some(r),
{
    reveal_strlit("项目经理");
    reveal_strlit("开发");
    reveal_strlit("测试");
    reveal_strlit("Pm");
    reveal_strlit("pm");
    reveal_strlit("Dev");
    reveal_strlit("dev");
    reveal_strlit("Qa");
    reveal_strlit("qa");
    let n = role_name(r);
    match r {
        Role::Pm => {},
        Role::Dev => {
            assert(n != "Pm"@ && n != "pm"@ && n != "项目经理"@) by {
                assert(n.len() == 2);
                assert(n[0] != "项目经理"@[0]);
            }
        },
        Role::Qa => {
            assert(n != "Pm"@ && n != "pm"@ && n != "项目经理"@) by {
                assert(n.len() == 2);
                assert(n[0] != "项目经理"@[0]);
            }
            assert(n != "Dev"@ && n != "dev"@ && n != "开发"@) by {
                assert(n[0] != "开发"@[0]);
            }
        },
    }
}

/// An IEEE 754 binary64 value (hours, an hourly rate, an amount of money),
/// held as its bit pattern. The library carries such values and tests their
/// sign, but does no arithmetic on them.
#[derive(Debug, Clone, Copy, PartialEq, Eq, Structural)]
pub struct FloatBits {
    pub bits: u64,
}

/// Whether the binary64 value with these bits is a NaN.
pub open spec fn float_is_nan(bits: u64) -> bool {
    (bits >> 52u64) & 0x7ffu64 == 0x7ffu64 && bits & 0xf_ffff_ffff_ffffu64 != 0
}

/// Whether the binary64 value with these bits compares `> 0.0`
/// (a positive number or positive infinity; never a NaN).
pub open spec fn float_gt_zero(bits: u64) -> bool {
    !float_is_nan(bits) && bits >> 63u64 == 0 && bits != 0
}

impl FloatBits {
    /// Whether the value compares `> 0.0`.
    pub fn gt_zero(&self) -> (res: bool)
        ensures
            res == float_gt_zero(self.bits),
    {
        let b = self.bits;
        let nan = (b >> 52u64) & 0x7ffu64 == 0x7ffu64 && b & 0xf_ffff_ffff_ffffu64 != 0;
        !nan && b >> 63u64 == 0 && b != 0
    }
}

/// A team member, with login account and hourly rate.
#[derive(Debug, Clone)]
pub struct Member {
    pub id: u32,
    /// Login name (unique).
    pub username: String,
    /// Salted password hash (the plain password is never stored).
    pub password_hash: String,
    /// Display name.
    pub name: String,
    pub role: Role,
    /// Hourly rate (yuan per hour), used for cost accounting.
    pub rate: FloatBits,
}

/// A project.
#[derive(Debug, Clone)]
pub struct Project {
    pub id: u32,
    pub name: String,
    pub desc: String,
    /// Budget (yuan).
    pub budget: FloatBits,
    /// Start date, `YYYY-MM-DD`.
    pub start: String,
    /// Deadline, `YYYY-MM-DD`.
    pub deadline: String,
    /// `进行中` (active) or `已完成` (closed).
    pub status: String,
}

/// A task of a project.
#[derive(Debug, Clone)]
pub struct Task {
    pub id: u32,
    pub project_id: u32,
    pub title: String,
    /// Member responsible for the task (`None` when unassigned).
    pub assignee: Option<u32>,
    /// `高` / `中` / `低`.
    pub priority: String,
    /// `待办` / `进行` / `完成`.
    pub status: String,
    /// Estimated hours.
    pub estimate_hours: FloatBits,
    /// Deadline, `YYYY-MM-DD`.
    pub deadline: String,
}

/// One booking of hours on a task.
#[derive(Debug, Clone)]
pub struct Timesheet {
    pub id: u32,
    pub task_id: u32,
    pub member_id: u32,
    /// Date, `YYYY-MM-DD`.
    pub date: String,
    /// Hours worked.
    pub hours: FloatBits,
    pub note: String,
}

impl Member {
    /// A copy of the member.
    pub fn copy(&self) -> (res: Member)
        ensures
            res == *self,
    {
        Member {
            id: self.id,
            username: self.username.clone(),
            password_hash: self.password_hash.clone(),
            name: self.name.clone(),
            role: self.role,
            rate: self.rate,
        }
    }
}

impl Task {
    /// A copy of the task.
    pub fn copy(&self) -> (res: Task)
        ensures
            res == *self,
    {
        Task {
            id: self.id,
            project_id: self.project_id,
            title: self.title.clone(),
            assignee: self.assignee,
            priority: self.priority.clone(),
            status: self.status.clone(),
            estimate_hours: self.estimate_hours,
            deadline: self.deadline.clone(),
        }
    }
}

} // verus!
