//! Reading the system clock as nanoseconds since the Unix epoch.
use std::time::Duration;
use std::time::UNIX_EPOCH;
use vstd::prelude::*;

verus! {

/// Relies on `SystemTime::elapsed` on `UNIX_EPOCH`: the time that has passed
/// since the epoch, absent when the clock reads earlier than the epoch.
#[verifier::external_body]
fn since_epoch() -> Option<Duration> {
    UNIX_EPOCH.elapsed().ok()
}

/// Relies on `Duration::as_nanos`: the whole span in nanoseconds.
#[verifier::external_body]
pub(crate) fn duration_nanos(d: &Duration) -> u128 {
    d.as_nanos()
}

/// The current time in nanoseconds since the Unix epoch; a clock set before
/// the epoch reads as the epoch itself.
pub fn now_nanos() -> u128 {
    match since_epoch() {
        Some(d) => duration_nanos(&d),
        None => 0,
    }
}

} // verus!
