//! The clock by which a round is timed: `std::time::Instant`, as far as
//! the rules of the quiz use it.

use std::time::{Duration, Instant};
use vstd::prelude::*;

verus! {

/// `std::time::Instant`, carried through as an opaque value.
#[verifier::external_type_specification]
#[verifier::external_body]
pub struct ExInstant(Instant);

/// `Instant::now` gives the present moment. Which moment that is depends on
/// when the call is made, so nothing is claimed of it.
pub assume_specification[ Instant::now ]() -> (moment: Instant)
;

/// `Instant::elapsed` gives the time that has passed since the moment. It
/// depends on when the call is made, so nothing is claimed of it.
pub assume_specification[ Instant::elapsed ](start: &Instant) -> (span: Duration)
;

/// `Duration::as_millis` gives the whole milliseconds of a span of time.
/// The rules never look into a span, so nothing is claimed of the number.
pub assume_specification[ Duration::as_millis ](span: &Duration) -> (millis: u128)
;

/// `Instant` is `Copy`: its `clone` hands back the same moment.
pub assume_specification[ <Instant as Clone>::clone ](start: &Instant) -> (copy: Instant)
    ensures
        copy == *start,
;

} // verus!
