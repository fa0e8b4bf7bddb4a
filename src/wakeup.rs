//! The wake-up timer that asks the owning fiber to be polled again.
//!
//! Only a scheduling hint: the queue always compares expiry times against the
//! clock itself, so a late or lost wake-up never changes what is dequeued.
use fibers::time::timer;
use fibers::time::timer::Timeout;
use futures::Async;
use futures::Future;
use std::time::Duration;
use vstd::prelude::*;

verus! {

#[verifier::external_type_specification]
#[verifier::external_body]
pub struct ExTimeout(Timeout);

/// Relies on futures' `Future` impl for `Option<F>` over fibers' `Timeout`:
/// polling an absent timer reads as ready and leaves it absent, and polling a
/// present one keeps it present.
#[verifier::external_body]
pub(crate) fn wakeup_fired(w: &mut Option<Timeout>) -> (r: bool)
    ensures
        old(w).is_none() ==> r && final(w).is_none(),
        old(w).is_some() ==> final(w).is_some(),
{
    matches!(w.poll(), Ok(Async::Ready(_)))
}

/// Relies on `fibers::time::timer::timeout`: a timer that fires once the given
/// number of nanoseconds has passed.
#[verifier::external_body]
pub(crate) fn start_timer(nanos: u64) -> Timeout {
    timer::timeout(Duration::from_nanos(nanos))
}

/// The delay in nanoseconds from `now` until `expiry`: none once it has
/// passed, and at most `u64::MAX`.
pub open spec fn delay_until(expiry: u128, now: u128) -> u64 {
    if expiry <= now {
        0
    } else if expiry - now > u64::MAX {
        u64::MAX
    } else {
        (expiry - now) as u64
    }
}

/// The delay in nanoseconds from `now` until `expiry`.
pub fn wakeup_delay(expiry: u128, now: u128) -> (r: u64)
    ensures
        r == delay_until(expiry, now),
{
    if expiry <= now {
        0
    } else if expiry - now > u64::MAX as u128 {
        u64::MAX
    } else {
        (expiry - now) as u64
    }
}

} // verus!
