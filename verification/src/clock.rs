//! The clock: `std::time::Instant` and `std::time::Duration`.

use std::time::{Duration, Instant};
use vstd::prelude::*;

verus! {

/// `std::time::Instant`.
#[verifier::external_type_specification]
#[verifier::external_body]
pub struct ExInstant(std::time::Instant);

/// How much time lies between an instant and the instant `now`, as `Instant::elapsed` finds it when
/// the clock shows `now`: zero if `now` is not the later one.
pub uninterp spec fn since(now: Instant, earlier: Instant) -> Duration;

/// The length of a duration in nanoseconds, as `Duration::as_nanos` gives it.
pub uninterp spec fn nanos(duration: Duration) -> u128;

/// The whole milliseconds of a duration.
pub open spec fn whole_millis(duration: Duration) -> u128 {
    nanos(duration) / 1_000_000
}

/// `Instant::now` reads the clock; nothing is claimed of what it shows.
pub assume_specification[ std::time::Instant::now ]() -> (now: Instant)
;

/// `Instant::elapsed` reads the clock: the result is the time from the instant to what the clock
/// shows. Nothing is claimed of what it shows.
pub assume_specification[ std::time::Instant::elapsed ](instant: &Instant) -> (age: Duration)
    ensures
        exists|now: Instant| age == #[trigger] since(now, *instant),
;

/// `Duration::as_millis`: the whole milliseconds of the duration, what is left over cut off.
pub assume_specification[ std::time::Duration::as_millis ](duration: &Duration) -> (millis: u128)
    ensures
        millis == nanos(*duration) / 1_000_000,
;

} // verus!
