//! Readings of the monotonic clock. Nothing is known of a reading but that it
//! was taken: the library carries instants and durations without looking
//! inside them.
use std::time::Duration;
use std::time::Instant;
use vstd::prelude::*;

verus! {

/// A reading of the monotonic clock (std's `Instant`), opaque to proofs.
#[verifier::external_type_specification]
#[verifier::external_body]
pub struct ExInstant(Instant);

/// Cloning an `Instant` (a `Copy` type, std's derived `Clone`) gives the
/// same reading.
pub assume_specification[ <Instant as Clone>::clone ](i: &Instant) -> (c: Instant)
    ensures
        c == *i,
;

/// Cloning a `Duration` (a `Copy` type, std's derived `Clone`) gives the
/// same duration.
pub assume_specification[ <Duration as Clone>::clone ](d: &Duration) -> (c: Duration)
    ensures
        c == *d,
;

/// Reads the clock with std's `Instant::now`. Nothing is stated of the
/// reading: it depends on when the call is made.
#[verifier::external_body]
pub(crate) fn now() -> Instant {
    Instant::now()
}

/// The time that passes from `start` to the later reading `later`, as std's
/// `Instant::duration_since` measures it.
pub uninterp spec fn elapsed_between(start: Instant, later: Instant) -> Duration;

/// The time since `start`, with std's `Instant::elapsed`: the time from
/// `start` to some clock reading taken during the call. Which reading it is
/// depends on when the call is made, so it is left open.
#[verifier::external_body]
pub(crate) fn elapsed_since(start: &Instant) -> (d: Duration)
    ensures
        exists|t: Instant| d == #[trigger] elapsed_between(*start, t),
{
    start.elapsed()
}

} // verus!
