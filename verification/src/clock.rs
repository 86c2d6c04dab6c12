//! Time: durations and a monotonic clock.
use std::time::{Duration, Instant};
use vstd::prelude::*;

verus! {

/// A reading of the standard library's monotonic clock, opaque to the verifier.
#[verifier::external_type_specification]
#[verifier::external_body]
pub struct ExInstant(Instant);

/// The length of a duration in nanoseconds.
pub uninterp spec fn nanos(duration: Duration) -> nat;

/// `Duration::as_nanos`: the total number of nanoseconds.
pub assume_specification[ Duration::as_nanos ](duration: &Duration) -> (count: u128)
    ensures
        count == nanos(*duration),
;

/// `Duration::from_secs`: the given number of whole seconds.
pub assume_specification[ Duration::from_secs ](secs: u64) -> (duration: Duration)
    ensures
        nanos(duration) == secs * 1_000_000_000,
;

/// `Duration::from_millis`: the given number of milliseconds.
pub assume_specification[ Duration::from_millis ](millis: u64) -> (duration: Duration)
    ensures
        nanos(duration) == millis * 1_000_000,
;

/// `Duration::from_nanos`: the given number of nanoseconds.
pub assume_specification[ Duration::from_nanos ](count: u64) -> (duration: Duration)
    ensures
        nanos(duration) == count,
;

/// The moment that an instant stands for, in nanoseconds from some point in time.
pub uninterp spec fn moment(instant: Instant) -> int;

/// The instant was read from the monotonic clock.
pub uninterp spec fn is_reading(instant: Instant) -> bool;

/// `Instant::now`: a reading of the clock. Which moment it stands for depends on the
/// machine, and nothing is claimed of it.
pub assume_specification[ Instant::now ]() -> (now: Instant)
    ensures
        is_reading(now),
;

/// `Instant::duration_since`: the time from the earlier instant to this one, or zero
/// where the earlier one lies behind.
pub assume_specification[ Instant::duration_since ](now: &Instant, earlier: Instant) -> (elapsed:
    Duration)
    ensures
        nanos(elapsed) == if moment(earlier) <= moment(*now) {
            moment(*now) - moment(earlier)
        } else {
            0
        },
;

/// A number of nanoseconds, at most `u64::MAX`.
pub open spec fn capped_nanos(count: int) -> int {
    if count <= u64::MAX {
        count
    } else {
        u64::MAX as int
    }
}

/// The nanoseconds of a duration, at most `u64::MAX`.
pub fn whole_nanos(duration: Duration) -> (count: u64)
    ensures
        count == capped_nanos(nanos(duration) as int),
{
    let count: u128 = duration.as_nanos();
    if count > u64::MAX as u128 {
        u64::MAX
    } else {
        count as u64
    }
}

/// A clock that counts nanoseconds from its start.
#[derive(Clone, Copy, Debug)]
pub struct Clock {
    /// The reading at the start.
    pub origin: Instant,
}

impl Clock {
    /// The clock starts at a reading.
    pub open spec fn started(self) -> bool {
        is_reading(self.origin)
    }

    /// The clock shows so many nanoseconds at an instant: those since its start.
    pub open spec fn shows_at(self, reading: Instant, now: u64) -> bool {
        now == if moment(self.origin) <= moment(reading) {
            capped_nanos(moment(reading) - moment(self.origin))
        } else {
            0
        }
    }

    /// The clock shows so many nanoseconds at some reading.
    pub open spec fn shows(self, now: u64) -> bool {
        exists|reading: Instant| #[trigger] is_reading(reading) && self.shows_at(reading, now)
    }

    /// Start a clock.
    pub fn start() -> (clock: Self)
        ensures
            clock.started(),
    {
        Clock { origin: Instant::now() }
    }

    /// The nanoseconds since the start, at most `u64::MAX`. At which moment the clock
    /// is read depends on the machine alone.
    pub fn now_nanos(&self) -> (now: u64)
        ensures
            self.shows(now),
    {
        let reading = Instant::now();
        let now: u64 = whole_nanos(reading.duration_since(self.origin));
        assert(is_reading(reading) && self.shows_at(reading, now));
        now
    }
}

/// The time from `earlier` to `now`, or zero where `earlier` lies behind.
pub open spec fn time_since(now: u64, earlier: u64) -> int {
    if earlier <= now {
        now - earlier
    } else {
        0
    }
}

/// The time from `earlier` to `now`, or zero where `earlier` lies behind.
pub fn elapsed_since(now: u64, earlier: u64) -> (elapsed: u64)
    ensures
        elapsed == time_since(now, earlier),
{
    if earlier <= now {
        now - earlier
    } else {
        0
    }
}

} // verus!
