use vstd::prelude::*;

use crate::service_timing::ServiceTiming;
use crate::time::{sat_sub, TimeDuration, TimeInstant};

verus! {

/// The state of a debouncer: the accepted value, and the instant of the last
/// accepted change while changes are still locked out.
#[derive(Clone, Copy, Debug, PartialEq, Eq, Structural)]
pub struct DebounceState {
    pub value: bool,
    pub lockout_since: Option<TimeInstant>,
}

/// What one debouncer update does: within `period` after an accepted change
/// the reading is ignored; after it, a reading that differs from the accepted
/// value is accepted at once and starts a new lockout.
pub open spec fn debounce_step(s: DebounceState, period: TimeDuration, raw: bool, now: TimeInstant) -> (DebounceState, ServiceTiming) {
    let locked = match s.lockout_since {
        Some(since) => sat_sub(now.millis, since.millis) < period.millis,
        None => false,
    };
    if locked {
        let elapsed = sat_sub(now.millis, s.lockout_since->0.millis);
        (s, ServiceTiming::Delay(TimeDuration { millis: sat_sub(period.millis, elapsed) }))
    } else if raw != s.value {
        (DebounceState { value: raw, lockout_since: Some(now) }, ServiceTiming::Delay(period))
    } else {
        (DebounceState { value: s.value, lockout_since: None }, ServiceTiming::Idle)
    }
}

/// Accepts a change of a raw input at once, then ignores further changes for
/// a fixed lockout period.
pub struct Debouncer {
    state: bool,
    lockout_since: Option<TimeInstant>,
    duration: TimeDuration,
}

impl Debouncer {
    /// The accepted value and the running lockout.
    pub closed spec fn view_state(&self) -> DebounceState {
        DebounceState { value: self.state, lockout_since: self.lockout_since }
    }

    /// The lockout period.
    pub closed spec fn period(&self) -> TimeDuration {
        self.duration
    }

    /// Creates a debouncer that holds `false` and locks changes out for
    /// `duration`.
    pub fn new(duration: TimeDuration) -> (r: Debouncer)
        ensures
            r.view_state() == (DebounceState { value: false, lockout_since: None }),
            r.period() == duration,
    {
        Debouncer { state: false, lockout_since: None, duration }
    }

    /// Takes a raw reading at `now`. Returns the debounced value and when to
    /// call again.
    pub fn update(&mut self, raw: bool, now: TimeInstant) -> (r: (bool, ServiceTiming))
        ensures
            final(self).period() == old(self).period(),
            final(self).view_state() == debounce_step(old(self).view_state(), old(self).period(), raw, now).0,
            r.0 == final(self).view_state().value,
            r.1 == debounce_step(old(self).view_state(), old(self).period(), raw, now).1,
    {
        if let Some(until) = self.lockout_since {
            let elapsed = now.duration_since(until);
            if elapsed.as_millis() < self.duration.as_millis() {
                let remaining = self.duration.saturating_sub(elapsed);
                return (self.state, ServiceTiming::Delay(remaining));
            }
            self.lockout_since = None;
        }
        if raw != self.state {
            self.state = raw;
            self.lockout_since = Some(now);
            (self.state, ServiceTiming::Delay(self.duration))
        } else {
            (self.state, ServiceTiming::Idle)
        }
    }
}

} // verus!
