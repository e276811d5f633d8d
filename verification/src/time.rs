//! Spans and points of time, counted in whole nanoseconds.

use vstd::prelude::*;

verus! {

pub const NANOS_PER_MILLI: u128 = 1_000_000;

pub const NANOS_PER_SEC: u128 = 1_000_000_000;

/// A span of time.
#[derive(Clone, Copy, Debug, PartialEq, Eq, Structural)]
pub struct Duration {
    pub nanos: u128,
}

impl Duration {
    pub fn from_millis(millis: u64) -> (span: Duration)
        ensures
            span.nanos == millis * NANOS_PER_MILLI,
    {
        Duration { nanos: millis as u128 * NANOS_PER_MILLI }
    }

    pub fn from_secs(secs: u64) -> (span: Duration)
        ensures
            span.nanos == secs * NANOS_PER_SEC,
    {
        Duration { nanos: secs as u128 * NANOS_PER_SEC }
    }

    /// Whole milliseconds of the span.
    pub fn as_millis(&self) -> (millis: u128)
        ensures
            millis == self.nanos / NANOS_PER_MILLI,
    {
        self.nanos / NANOS_PER_MILLI
    }
}

/// A reading of a monotonic clock, relative to an origin that the process fixes once.
#[derive(Clone, Copy, Debug, PartialEq, Eq, Structural)]
pub struct Instant {
    pub nanos: u128,
}

impl Instant {
    /// The time that passed from `earlier` to this instant, zero if `earlier` is the later one.
    pub open spec fn since(self, earlier: Instant) -> int {
        if self.nanos >= earlier.nanos {
            self.nanos - earlier.nanos
        } else {
            0
        }
    }

    /// The time that passed from `earlier` to this instant, zero if `earlier` is the later one.
    pub fn duration_since(&self, earlier: Instant) -> (span: Duration)
        ensures
            span.nanos == self.since(earlier),
    {
        Duration { nanos: self.nanos.saturating_sub(earlier.nanos) }
    }
}

/// A reading of the wall clock, relative to the Unix epoch.
#[derive(Clone, Copy, Debug, PartialEq, Eq, Structural)]
pub struct SystemTime {
    pub nanos: i128,
}

impl SystemTime {
    /// The point of time `millis` milliseconds later.
    pub open spec fn plus(self, millis: int) -> SystemTime {
        SystemTime { nanos: (self.nanos + millis * NANOS_PER_MILLI) as i128 }
    }

    /// The point of time `millis` milliseconds later.
    pub fn after_millis(&self, millis: u64) -> (later: SystemTime)
        requires
            self.nanos + millis * NANOS_PER_MILLI <= i128::MAX,
        ensures
            later == self.plus(millis as int),
    {
        SystemTime { nanos: self.nanos + (millis as i128) * 1_000_000i128 }
    }

    /// The span from `earlier` to this point of time, if `earlier` is not the later one.
    pub fn duration_since(&self, earlier: SystemTime) -> (span: Option<Duration>)
        ensures
            self.nanos >= earlier.nanos ==> span == Some(
                Duration { nanos: (self.nanos - earlier.nanos) as u128 },
            ),
            self.nanos < earlier.nanos ==> span is None,
    {
        if self.nanos < earlier.nanos {
            None
        } else if earlier.nanos < 0 && self.nanos >= 0 {
            let before: u128 = (-(earlier.nanos + 1)) as u128 + 1;
            Some(Duration { nanos: self.nanos as u128 + before })
        } else {
            Some(Duration { nanos: (self.nanos - earlier.nanos) as u128 })
        }
    }
}

/// A point of time that is some milliseconds later is later by that much, and the time between two
/// instants is what their readings differ by, or nothing where the clock went back.
pub proof fn law_time_adds_up(at: SystemTime, millis: u64, earlier: Instant, later: Instant)
    ensures
        at.nanos + millis * 1_000_000 <= i128::MAX ==> at.plus(millis as int).nanos == at.nanos
            + millis * 1_000_000,
        earlier.nanos <= later.nanos ==> earlier.nanos + later.since(earlier) == later.nanos,
        earlier.nanos <= later.nanos ==> earlier.since(later) == 0,
{
}

/// Spans and points of time are what they are made from, and tell it again.
pub proof fn law_spans_are_what_they_are_made_from(
    millis: u64,
    secs: u64,
    short: Duration,
    long: Duration,
    back: u128,
    at: &SystemTime,
    later: SystemTime,
    between: Option<Duration>,
    none: Option<Duration>,
    start: Instant,
    end: &Instant,
    elapsed: Duration,
)
    requires
        call_ensures(Duration::from_millis, (millis,), short),
        call_ensures(Duration::from_secs, (secs,), long),
        call_ensures(Duration::as_millis, (&short,), back),
        at.nanos + millis * 1_000_000 <= i128::MAX,
        call_ensures(SystemTime::after_millis, (at, millis), later),
        call_ensures(SystemTime::duration_since, (&later, *at), between),
        call_ensures(SystemTime::duration_since, (at, later), none),
        call_ensures(Instant::duration_since, (end, start), elapsed),
    ensures
        short.nanos == millis * 1_000_000,
        long.nanos == secs * 1_000_000_000,
        back == millis,
        later.nanos == at.nanos + millis * 1_000_000,
        between == Some(short),
        millis > 0 ==> none is None,
        start.nanos <= end.nanos ==> start.nanos + elapsed.nanos == end.nanos,
        start.nanos > end.nanos ==> elapsed.nanos == 0,
{
}

} // verus!
