//! Monotonic time for the time-dependent rules (input seat, login limiter).

use vstd::prelude::*;

use std::time::Instant;

verus! {

#[verifier::external_type_specification]
#[verifier::external_body]
pub struct ExInstant(Instant);

/// `Instant::now()`: the current monotonic instant; nothing is known of it.
#[verifier::external_body]
pub(crate) fn instant_now() -> (t: Instant) {
    Instant::now()
}

/// `Instant::elapsed()` in whole nanoseconds (truncated to `u64`): depends on
/// the clock, so nothing is stated of it.
#[verifier::external_body]
pub(crate) fn nanos_since(start: &Instant) -> (n: u64) {
    start.elapsed().as_nanos() as u64
}

} // verus!
