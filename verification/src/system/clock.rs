//! The monotonic clock that dates notifications.

use vstd::prelude::*;

verus! {

/// A reading of the standard library's monotonic clock. Its content is not
/// visible to the verifier; it only serves as the origin of later readings.
#[verifier::external_type_specification]
#[verifier::external_body]
pub struct ExInstant(std::time::Instant);

/// `Instant::now` returns the current reading of the monotonic clock; nothing
/// is claimed about it.
pub assume_specification[ std::time::Instant::now ]() -> (now: std::time::Instant)
;

/// The nanoseconds that have passed since `origin`, read with `Instant::elapsed`.
/// The value depends on the moment of the call, so nothing is claimed about it.
#[verifier::external_body]
pub(crate) fn elapsed_nanos(origin: &std::time::Instant) -> (nanos: u64) {
    origin.elapsed().as_nanos() as u64
}

} // verus!
