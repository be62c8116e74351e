//! Wall-clock readings used to time a typing test.
use std::time::{Duration, Instant};
use vstd::prelude::*;

verus! {

/// `std::time::Instant`, carried through the typing test as an opaque value.
#[verifier::external_type_specification]
#[verifier::external_body]
pub struct ExInstant(Instant);

/// Calls `Instant::now`. The reading depends on the machine's clock, so
/// nothing is promised of it.
#[verifier::external_body]
pub(crate) fn instant_now() -> (now: Instant) {
    Instant::now()
}

/// Calls `Instant::elapsed`: the time since `start` was read. It depends on
/// the clock, so nothing is promised of it.
#[verifier::external_body]
pub(crate) fn instant_elapsed(start: &Instant) -> (elapsed: Duration) {
    start.elapsed()
}

/// The time from `earlier` to `later`, as `<Instant as Sub>::sub` gives it:
/// zero when `earlier` is the later of the two.
pub uninterp spec fn instant_span(later: Instant, earlier: Instant) -> Duration;

/// Calls `<Instant as Sub>::sub`, which saturates at zero when `earlier` is
/// later than `later`. Its result depends on the two instants alone, and is
/// named `instant_span`.
#[verifier::external_body]
pub(crate) fn instant_sub(later: &Instant, earlier: &Instant) -> (span: Duration)
    ensures
        span == instant_span(*later, *earlier),
{
    *later - *earlier
}

} // verus!
