use vstd::prelude::*;

verus! {

/// A non-negative span of time, counted in whole milliseconds.
#[derive(Clone, Copy, Debug, PartialEq, Eq, Structural)]
pub struct TimeDuration {
    pub millis: u64,
}

/// A point on a monotonic timeline, counted in milliseconds from an
/// arbitrary origin chosen by the clock that produced it.
#[derive(Clone, Copy, Debug, PartialEq, Eq, Structural)]
pub struct TimeInstant {
    pub millis: u64,
}

/// `a - b`, clamped at zero.
pub open spec fn sat_sub(a: u64, b: u64) -> u64 {
    if a >= b {
        (a - b) as u64
    } else {
        0
    }
}

impl TimeDuration {
    pub fn from_millis(millis: u64) -> (r: TimeDuration)
        ensures
            r.millis == millis,
    {
        TimeDuration { millis }
    }

    pub fn as_millis(&self) -> (r: u64)
        ensures
            r == self.millis,
    {
        self.millis
    }

    /// `self - other`, clamped at zero rather than underflowing.
    pub fn saturating_sub(self, other: TimeDuration) -> (r: TimeDuration)
        ensures
            r.millis == sat_sub(self.millis, other.millis),
    {
        TimeDuration { millis: self.millis.saturating_sub(other.millis) }
    }
}

/// The instant `at + d`, or `fallback` where that sum is past the end of the
/// representable timeline.
pub open spec fn add_or(at: TimeInstant, d: TimeDuration, fallback: TimeInstant) -> TimeInstant {
    if at.millis + d.millis <= u64::MAX {
        TimeInstant { millis: (at.millis + d.millis) as u64 }
    } else {
        fallback
    }
}

impl TimeInstant {
    pub fn from_millis(millis: u64) -> (r: TimeInstant)
        ensures
            r.millis == millis,
    {
        TimeInstant { millis }
    }

    pub fn as_millis(&self) -> (r: u64)
        ensures
            r == self.millis,
    {
        self.millis
    }

    /// The time elapsed from `earlier` to `self`; zero where `earlier` is in
    /// fact the later of the two.
    pub fn duration_since(&self, earlier: TimeInstant) -> (r: TimeDuration)
        ensures
            r.millis == sat_sub(self.millis, earlier.millis),
    {
        TimeDuration { millis: self.millis.saturating_sub(earlier.millis) }
    }

    /// `self + d`, or `None` where the sum is not representable.
    pub fn checked_add(self, d: TimeDuration) -> (r: Option<TimeInstant>)
        ensures
            self.millis + d.millis <= u64::MAX ==> r == Some((TimeInstant { millis: (self.millis + d.millis) as u64 })),
            self.millis + d.millis > u64::MAX ==> r is None,
    {
        match self.millis.checked_add(d.millis) {
            Some(m) => Some(TimeInstant { millis: m }),
            None => None,
        }
    }
}

} // verus!
