//! Readings of the monotonic clock.
//!
//! The clock of the standard library is opaque here: an [`Instant`] is only ever
//! compared with another one, and a [`Duration`] is only ever asked for its whole
//! milliseconds. The items of this file say what the rest of the crate relies on.
use std::time::{Duration, Instant};
use vstd::prelude::*;

verus! {

/// Declares [`std::time::Instant`], an opaque reading of the monotonic clock.
#[verifier::external_type_specification]
#[verifier::external_body]
pub struct ExInstant(std::time::Instant);

/// An instant that [`Instant::now`] returns: a reading of the clock.
pub open spec fn is_reading(now: Instant) -> bool {
    call_ensures(Instant::now, (), now)
}

/// The time that [`Instant::duration_since`] reports from `earlier` to `later`.
pub uninterp spec fn duration_between(later: Instant, earlier: Instant) -> Duration;

/// The number of whole milliseconds that [`Duration::as_millis`] reports.
pub uninterp spec fn whole_millis(duration: Duration) -> u128;

/// [`Instant::now`] reads the clock. Nothing is claimed of the reading: two calls
/// may return different instants. That an instant is such a reading is written
/// [`is_reading`].
pub assume_specification[ Instant::now ]() -> Instant;

/// [`Instant::duration_since`] reports the time from `earlier` to `later`. It is
/// claimed to be a function of the two instants, named [`duration_between`]. Instants
/// have no order here, so it is left unsaid that the time is zero where `earlier` is
/// the later one.
pub assume_specification[ Instant::duration_since ](
    later: &Instant,
    earlier: Instant,
) -> (elapsed: Duration)
    ensures
        elapsed == duration_between(*later, earlier),
;

/// [`Duration::as_millis`] counts the whole milliseconds of a duration. It is
/// claimed to be a function of the duration, named [`whole_millis`].
pub assume_specification[ Duration::as_millis ](duration: &Duration) -> (millis: u128)
    ensures
        millis == whole_millis(*duration),
;

} // verus!
