//! Monotonic time, read through `std::time`.

use vstd::prelude::*;

use std::time::{Duration, Instant};

verus! {

/// `std::time::Instant`, carried through verified code as an opaque value.
#[verifier::external_type_specification]
#[verifier::external_body]
pub struct ExInstant(std::time::Instant);

/// `Instant::now`: the current moment of the monotonic clock. The value
/// depends on when it is taken, so nothing is stated of it.
#[verifier::external_body]
pub(crate) fn now() -> (r: Instant) {
    Instant::now()
}

/// `Instant::elapsed`: the time since `started`. It depends on the clock, so
/// nothing is stated of it.
#[verifier::external_body]
pub(crate) fn elapsed(started: &Instant) -> (r: Duration) {
    started.elapsed()
}

/// `Duration::as_millis`: the whole milliseconds of `d`. A `Duration` is
/// opaque here, so the value is not stated.
#[verifier::external_body]
pub(crate) fn duration_millis(d: &Duration) -> (r: u128) {
    d.as_millis()
}

} // verus!
