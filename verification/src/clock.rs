//! The monotonic clock.

use vstd::prelude::*;

verus! {

/// std's monotonic instant, carried opaquely.
#[verifier::external_type_specification]
#[verifier::external_body]
pub struct ExInstant(std::time::Instant);

/// std's `Clone` for `Instant`, which derives `Clone` together with `Copy`:
/// the clone is the same instant.
pub assume_specification[<std::time::Instant as std::clone::Clone>::clone](instant: &std::time::Instant) -> (r: std::time::Instant)
    ensures
        r == *instant,
;

/// A reading of the monotonic clock (std's `Instant::now`). Nothing is
/// claimed of the value: the clock is outside the program.
#[verifier::external_body]
pub(crate) fn instant_now() -> (r: std::time::Instant) {
    std::time::Instant::now()
}

/// The nanoseconds the monotonic clock has advanced since `origin` (std's
/// `Instant::elapsed`, then `Duration::as_nanos`). Nothing is claimed of the
/// value: it depends on when the call is made.
#[verifier::external_body]
pub(crate) fn nanos_since(origin: &std::time::Instant) -> (r: u128) {
    origin.elapsed().as_nanos()
}

} // verus!
