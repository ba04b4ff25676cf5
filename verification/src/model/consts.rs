//! Task priorities and task and project statuses.

use vstd::prelude::*;

verus! {

/// Priority: high.
pub const P_HIGH: &'static str = "高";
/// Priority: medium.
pub const P_MEDIUM: &'static str = "中";
/// Priority: low.
pub const P_LOW: &'static str = "低";

/// Task status: to do.
pub const T_TODO: &'static str = "待办";
/// Task status: in progress.
pub const T_DOING: &'static str = "进行";
/// Task status: done.
pub const T_DONE: &'static str = "完成";

/// Project status: active.
pub const PRJ_ACTIVE: &'static str = "进行中";
/// Project status: closed.
pub const PRJ_CLOSED: &'static str = "已完成";

} // verus!
