//! The system clock.

use vstd::prelude::*;

verus! {

/// Seconds since the Unix epoch by the system clock (std `SystemTime::elapsed` of `UNIX_EPOCH`),
/// 0 when the clock is before the epoch. Nothing is stated of the value:
/// it depends on the time of the call.
#[verifier::external_body]
pub(crate) fn now_secs() -> u64 {
    match std::time::UNIX_EPOCH.elapsed() {
        Ok(d) => d.as_secs(),
        Err(_) => 0,
    }
}

/// Nanoseconds since the Unix epoch by the system clock (std `SystemTime::elapsed` of `UNIX_EPOCH`),
/// 0 when the clock is before the epoch. Nothing is stated of the value.
#[verifier::external_body]
pub(crate) fn now_nanos() -> u128 {
    match std::time::UNIX_EPOCH.elapsed() {
        Ok(d) => d.as_nanos(),
        Err(_) => 0,
    }
}

} // verus!
