//! R&D task and timesheet platform: verified core library.

pub mod model;
pub mod text;
pub mod http;
pub mod clock;
pub mod sha;
pub mod table;
pub mod auth;
pub mod store;
pub mod page;
pub mod api;

use vstd::prelude::*;

verus! {

/// The library's version.
pub const VERSION: &'static str = "0.1.0";

} // verus!
