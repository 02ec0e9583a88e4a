use std::time::{Duration, Instant};
use vstd::prelude::*;

verus! {

#[verifier::external_type_specification]
#[verifier::external_body]
pub struct ExInstant(Instant);

/// Relies on `Instant::now`: a reading of the monotonic clock. Nothing is
/// promised of the value.
#[verifier::external_body]
pub(crate) fn clock_now() -> Instant {
    Instant::now()
}

/// Relies on `Instant::elapsed`, counted in whole milliseconds by
/// `Duration::as_millis`: the time since `origin`. It depends on the clock,
/// so nothing is promised of the value.
#[verifier::external_body]
pub(crate) fn millis_since(origin: &Instant) -> u128 {
    origin.elapsed().as_millis()
}

/// The duration of `ms` milliseconds.
pub uninterp spec fn millis_duration(ms: u64) -> Duration;

/// Relies on `Duration::from_millis`: the span of exactly `ms` milliseconds.
#[verifier::external_body]
pub(crate) fn duration_from_millis(ms: u64) -> (r: Duration)
    ensures
        r == millis_duration(ms),
{
    Duration::from_millis(ms)
}

} // verus!
