//! Points in time, taken from the system clock.
use vstd::prelude::*;

pub use std::time::Instant;

verus! {

/// A point in time as `std::time::Instant` measures it; the library only
/// stores and hands back such values.
#[verifier::external_type_specification]
#[verifier::external_body]
pub struct ExInstant(std::time::Instant);

/// Calls `std::time::Instant::now`. Nothing is claimed of the result: it is
/// whatever the clock reads at the time of the call.
#[verifier::external_body]
pub(crate) fn instant_now() -> (t: Instant) {
    Instant::now()
}

/// Calls `std::time::Instant::elapsed` and converts the duration to whole
/// milliseconds with `Duration::as_millis`. Nothing is claimed of the result:
/// it depends on the clock.
#[verifier::external_body]
pub(crate) fn millis_since(t: Instant) -> (r: u128) {
    t.elapsed().as_millis()
}

} // verus!
