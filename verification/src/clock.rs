//! The wall clock and durations of whole seconds.

use vstd::prelude::*;
use std::time::Duration;

verus! {

/// The duration of `secs` whole seconds, as `Duration::from_secs` makes it.
pub uninterp spec fn duration_of_secs(secs: u64) -> Duration;

/// `Duration::from_secs` of std: the duration of `secs` whole seconds,
/// whose `as_secs` is `secs` again, as std documents.
#[verifier::external_body]
pub(crate) fn duration_from_secs(secs: u64) -> (r: Duration)
    ensures
        r == duration_of_secs(secs),
        crate::logging::formatter::duration_whole_secs(r) == secs,
{
    Duration::from_secs(secs)
}


/// Milliseconds since the Unix epoch as the system clock reads them:
/// `std::time::SystemTime::now().duration_since(UNIX_EPOCH)`, taken as
/// `Duration::as_millis`; `None` where the clock reads before the epoch
/// (`duration_since` returns an error then). Nothing is promised of the value:
/// it is the machine's clock.
#[verifier::external_body]
fn system_millis() -> (t: Option<u128>) {
    match std::time::SystemTime::now().duration_since(std::time::UNIX_EPOCH) {
        Ok(d) => Some(d.as_millis()),
        Err(_) => None,
    }
}

/// Milliseconds since the Unix epoch; a clock set before the epoch reads 0,
/// and one past the range of `u64` reads `u64::MAX`.
pub(crate) fn now_millis() -> (t: u64) {
    match system_millis() {
        None => 0,
        Some(ms) => if ms > u64::MAX as u128 { u64::MAX } else { ms as u64 },
    }
}

/// Whole seconds since the Unix epoch.
pub(crate) fn now_secs() -> (t: u64)
    ensures
        t <= u64::MAX / 1000,
{
    now_millis() / 1000
}

} // verus!
