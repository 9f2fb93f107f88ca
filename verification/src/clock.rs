//! Monotonic time source shared by the pacing and evaluation policies.
//!
//! The policies themselves are verified over plain millisecond counts; this
//! module only reads the clock.

use vstd::prelude::*;

verus! {

#[verifier::external_type_specification]
#[verifier::external_body]
pub struct ExInstant(std::time::Instant);

/// Reads the monotonic clock (`std::time::Instant::now`). Nothing is
/// promised of the value: it depends on the time of the call.
#[verifier::external_body]
pub(crate) fn instant_now() -> (now: std::time::Instant) {
    std::time::Instant::now()
}

/// Time passed since `since` (`Instant::elapsed`). Nothing is promised of
/// the value: it depends on the time of the call.
#[verifier::external_body]
fn instant_elapsed(since: &std::time::Instant) -> (d: core::time::Duration) {
    since.elapsed()
}

/// Whole milliseconds of a duration (`Duration::as_millis`). Nothing is
/// stated: Verus does not see inside a `Duration`.
#[verifier::external_body]
fn duration_millis(d: &core::time::Duration) -> (ms: u128) {
    d.as_millis()
}

/// Whole milliseconds elapsed since `since`.
pub(crate) fn elapsed_ms(since: &std::time::Instant) -> (ms: u128) {
    let d = instant_elapsed(since);
    duration_millis(&d)
}

} // verus!
