//! The monotonic clock that a limiter reads.

use vstd::prelude::*;

verus! {

/// A point on the monotonic clock of std.
#[verifier::external_type_specification]
#[verifier::external_body]
pub struct ExInstant(std::time::Instant);

/// `Instant::now`: the present point on the clock. Nothing is known of it.
#[verifier::external_body]
pub(crate) fn clock_start() -> (origin: std::time::Instant) {
    std::time::Instant::now()
}

/// `Instant::elapsed`, in nanoseconds: the time that went by since `origin`.
/// Nothing is known of it.
#[verifier::external_body]
pub(crate) fn nanos_since(origin: &std::time::Instant) -> (nanos: u64) {
    origin.elapsed().as_nanos() as u64
}

} // verus!
