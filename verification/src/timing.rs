//! Wall-clock measurement for the batch runner. The readings come from the
//! process clock, so nothing is promised of their values: callers state their
//! results independently of what the clock returned.

use vstd::prelude::*;

verus! {

#[verifier::external_type_specification]
#[verifier::external_body]
pub struct ExInstant(std::time::Instant);

/// Relies on std::time::Instant::now: an opaque monotonic-clock reading.
#[verifier::external_body]
pub(crate) fn instant_now() -> std::time::Instant {
    std::time::Instant::now()
}

/// Relies on std::time::Instant::elapsed: the time since the reading was
/// taken. The value depends on the clock, so nothing is stated of it.
#[verifier::external_body]
pub(crate) fn instant_elapsed(start: &std::time::Instant) -> std::time::Duration {
    start.elapsed()
}

/// Relies on std::time::Duration::as_nanos: the duration in whole
/// nanoseconds, truncated to 64 bits.
#[verifier::external_body]
pub(crate) fn duration_nanos(d: &std::time::Duration) -> u64 {
    d.as_nanos() as u64
}

} // verus!
