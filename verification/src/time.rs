//! Access to std's monotonic clock. Readings depend on when they are
//! taken, so nothing is stated of their values.
use std::time::{Duration, Instant};
use vstd::prelude::*;

verus! {

#[verifier::external_type_specification]
#[verifier::external_body]
pub struct ExInstant(Instant);

/// `Instant::now`: a reading of the monotonic clock. Its value depends on
/// the moment of the call, so no clause describes it.
#[verifier::external_body]
pub(crate) fn monotonic_now() -> Instant {
    Instant::now()
}

/// `Instant::elapsed`: the time that has passed since `start`. It depends
/// on the moment of the call, so no clause describes it.
#[verifier::external_body]
pub(crate) fn elapsed_since(start: &Instant) -> Duration {
    start.elapsed()
}

/// `Duration::as_nanos`: the length of `d` in nanoseconds. `Duration` is
/// opaque here, so nothing is stated of the number.
#[verifier::external_body]
pub(crate) fn duration_as_nanos(d: &Duration) -> u128 {
    d.as_nanos()
}

/// The duration of `nanos` nanoseconds, as `Duration::from_nanos` builds it.
pub uninterp spec fn duration_of_nanos(nanos: u64) -> Duration;

/// `Duration::from_nanos`: a duration of `nanos` nanoseconds. `Duration` is
/// opaque here; the contract says only that the value is the one named
/// `duration_of_nanos(nanos)`, which depends on `nanos` alone.
#[verifier::external_body]
pub(crate) fn duration_from_nanos(nanos: u64) -> (d: Duration)
    ensures
        d == duration_of_nanos(nanos),
{
    Duration::from_nanos(nanos)
}

/// Nanoseconds that have passed since `start`, saturating at `u64::MAX`.
pub(crate) fn nanos_since(start: &Instant) -> u64 {
    let d = elapsed_since(start);
    let n = duration_as_nanos(&d);
    if n > u64::MAX as u128 {
        u64::MAX
    } else {
        n as u64
    }
}

} // verus!
