//! The clock that operations are timed by.

use vstd::prelude::*;

verus! {

#[verifier::external_type_specification]
#[verifier::external_body]
pub struct ExInstant(tokio::time::Instant);

/// `tokio::time::Instant::now`: the present reading of the clock. Nothing is
/// claimed of the value.
#[verifier::external_body]
pub(crate) fn now() -> tokio::time::Instant {
    tokio::time::Instant::now()
}

/// `tokio::time::Instant::elapsed`: the time that has passed since `begun`,
/// here in nanoseconds. Nothing is claimed of the value.
#[verifier::external_body]
pub(crate) fn elapsed_nanos(begun: &tokio::time::Instant) -> u128 {
    begun.elapsed().as_nanos()
}

} // verus!
