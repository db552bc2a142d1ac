//! The wall clock.

use vstd::prelude::*;

verus! {

/// Seconds since the Unix epoch, from `std::time::SystemTime::now()` and
/// `duration_since(UNIX_EPOCH)`: `None` when the clock reads before 1970,
/// which is the case `duration_since` reports as an error. Nothing is
/// promised of the value: it is whatever the system clock says.
#[verifier::external_body]
pub(crate) fn unix_now_secs() -> (r: Option<u64>) {
    match std::time::SystemTime::now().duration_since(std::time::UNIX_EPOCH) {
        Ok(d) => Some(d.as_secs()),
        Err(_) => None,
    }
}

/// Seconds since the Unix epoch by the system clock; a clock that reads
/// before 1970 counts as time zero rather than stopping the service.
pub fn unix_time_secs() -> u64 {
    match unix_now_secs() {
        Some(t) => t,
        None => 0,
    }
}

} // verus!
