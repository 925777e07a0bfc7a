//! Readings of the monotonic and the wall clock.
//!
//! What a clock shows is not a function of anything the library holds, so
//! these wrappers promise nothing about their results; the logic that uses
//! them takes the readings as plain numbers.
use std::time::{Duration, Instant};
use vstd::prelude::*;

verus! {

#[verifier::external_type_specification]
#[verifier::external_body]
pub struct ExInstant(std::time::Instant);

/// `<Instant as Clone>::clone`: `Instant` is `Copy`, so a clone is the same reading.
pub assume_specification[ <std::time::Instant as std::clone::Clone>::clone ](a: &Instant) -> (r: Instant)
    ensures
        r == *a,
;

/// `<Duration as Clone>::clone`: `Duration` is `Copy`, so a clone is the same length.
pub assume_specification[ <std::time::Duration as std::clone::Clone>::clone ](a: &Duration) -> (r: Duration)
    ensures
        r == *a,
;

/// `Instant::now`: the current reading of the monotonic clock.
#[verifier::external_body]
pub(crate) fn instant_now() -> Instant {
    Instant::now()
}

/// `Instant::elapsed`, in nanoseconds: the time passed since `since`
/// (zero if the clock reads earlier).
#[verifier::external_body]
pub(crate) fn elapsed_nanos(since: &Instant) -> u128 {
    since.elapsed().as_nanos()
}

/// `Instant::elapsed`: the time passed since `since`, as a `Duration`.
#[verifier::external_body]
pub(crate) fn elapsed_duration(since: &Instant) -> Duration {
    since.elapsed()
}

/// The whole length of a duration in nanoseconds, as `Duration::as_nanos`
/// gives it.
pub uninterp spec fn nanos_in(d: Duration) -> u128;

/// `Duration::as_nanos`: the whole length of `d` in nanoseconds.
#[verifier::external_body]
pub(crate) fn duration_nanos(d: &Duration) -> (r: u128)
    ensures
        r == nanos_in(*d),
{
    d.as_nanos()
}

/// `Duration::from_secs`: a duration of `secs` whole seconds, that is of
/// `secs` times 10^9 nanoseconds.
#[verifier::external_body]
pub(crate) fn duration_from_secs(secs: u64) -> (r: Duration)
    ensures
        nanos_in(r) == secs * 1_000_000_000,
{
    Duration::from_secs(secs)
}

/// Whole seconds since the Unix epoch by the wall clock
/// (`SystemTime::now().duration_since(UNIX_EPOCH)`), or `None` where the
/// clock reads before the epoch and that call returns its error. Which of
/// the two comes back, and the number, are the clock's reading: nothing is
/// promised of them.
#[verifier::external_body]
pub(crate) fn unix_time_secs() -> Option<u64> {
    match std::time::SystemTime::now().duration_since(std::time::UNIX_EPOCH) {
        Ok(d) => Some(d.as_secs()),
        Err(_) => None,
    }
}

} // verus!
