use std::time::Instant;
use vstd::prelude::*;

verus! {

/// std::time::Instant, a reading of the monotonic clock, carried through as
/// an opaque value.
#[verifier::external_type_specification]
#[verifier::external_body]
pub struct ExInstant(std::time::Instant);

/// Relies on std::time::Instant::now: reads the monotonic clock. Nothing is
/// promised of the value read.
#[verifier::external_body]
pub(crate) fn clock_now() -> Instant {
    Instant::now()
}

/// Relies on std::time::Instant::elapsed: the whole milliseconds that have
/// passed since `since`. Nothing is promised of the value, which depends on
/// the clock.
#[verifier::external_body]
pub(crate) fn millis_since(since: &Instant) -> u128 {
    since.elapsed().as_millis()
}

} // verus!
