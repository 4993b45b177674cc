use vstd::prelude::*;

use crate::config::{at_cap, Config};
use crate::event::Event;
use crate::service_timing::ServiceTiming;
use crate::time::{add_or, sat_sub, TimeDuration, TimeInstant};

verus! {

/// A change of the logical input.
#[derive(Clone, Copy, Debug, PartialEq, Eq, Structural)]
pub enum Edge {
    Press,
    Release,
}

/// The gesture state of one button.
#[derive(Clone, Copy, Debug, PartialEq, Eq, Structural)]
pub enum State {
    /// Nothing in progress; no click streak is open.
    Idle,
    /// The button is down.
    Pressed {
        pressed_at: TimeInstant,
        next_hold_at: TimeInstant,
        click_count: u8,
        hold_level: u8,
    },
    /// The button is up after a click; a further press continues the streak.
    WaitForMultiClick { click_count: u8, released_at: TimeInstant },
}

/// `n + 1`, held at `u8::MAX`.
pub open spec fn inc_u8(n: u8) -> u8 {
    if n < u8::MAX {
        (n + 1) as u8
    } else {
        u8::MAX
    }
}

/// The state entered by a press at `now`, carrying `click_count` clicks.
pub open spec fn press_state(cfg: Config, now: TimeInstant, click_count: u8) -> State {
    State::Pressed {
        pressed_at: now,
        next_hold_at: add_or(now, cfg.hold_delay, now),
        click_count,
        hold_level: 0,
    }
}

/// What one update does: from state `s`, on `edge` at `now`, the next state,
/// the event emitted and when to call again.
pub open spec fn step(cfg: Config, s: State, edge: Option<Edge>, now: TimeInstant) -> (State, Option<Event>, ServiceTiming) {
    match s {
        State::Idle => match edge {
            Some(Edge::Press) => (press_state(cfg, now, 0), Some(Event::Press), ServiceTiming::Delay(cfg.hold_delay)),
            _ => (State::Idle, None, ServiceTiming::Idle),
        },
        State::Pressed { pressed_at, next_hold_at, click_count, hold_level } => match edge {
            Some(Edge::Release) => {
                let duration = TimeDuration { millis: sat_sub(now.millis, pressed_at.millis) };
                if hold_level > 0 {
                    (State::Idle, Some(Event::Release { duration }), ServiceTiming::Idle)
                } else {
                    let count = inc_u8(click_count);
                    let timing = if at_cap(cfg, count) {
                        ServiceTiming::Immediate
                    } else {
                        ServiceTiming::Delay(cfg.click_timeout)
                    };
                    (State::WaitForMultiClick { click_count: count, released_at: now }, Some(Event::Release { duration }), timing)
                }
            },
            _ => {
                let elapsed = sat_sub(now.millis, pressed_at.millis);
                let wait = sat_sub(next_hold_at.millis, pressed_at.millis);
                if elapsed >= wait {
                    (
                        State::Pressed {
                            pressed_at,
                            next_hold_at: add_or(next_hold_at, cfg.hold_interval, next_hold_at),
                            click_count,
                            hold_level: inc_u8(hold_level),
                        },
                        Some(Event::Hold { clicks_before: click_count, level: hold_level }),
                        ServiceTiming::Delay(cfg.hold_interval),
                    )
                } else {
                    (s, None, ServiceTiming::Delay(TimeDuration { millis: sat_sub(wait, elapsed) }))
                }
            },
        },
        State::WaitForMultiClick { click_count, released_at } => match edge {
            Some(Edge::Press) => (press_state(cfg, now, click_count), Some(Event::Press), ServiceTiming::Delay(cfg.hold_delay)),
            _ => {
                let elapsed = sat_sub(now.millis, released_at.millis);
                if at_cap(cfg, click_count) || elapsed >= cfg.click_timeout.millis {
                    (State::Idle, Some(Event::Click { count: click_count }), ServiceTiming::Idle)
                } else {
                    (s, None, ServiceTiming::Delay(TimeDuration { millis: sat_sub(cfg.click_timeout.millis, elapsed) }))
                }
            },
        },
    }
}

/// The invariant of a state: a hold deadline never lies before its press.
pub open spec fn state_wf(s: State) -> bool {
    s matches State::Pressed { pressed_at, next_hold_at, .. } ==> pressed_at.millis <= next_hold_at.millis
}

/// The gesture state machine of one button.
pub struct StateMachine {
    state: State,
    config: &'static Config,
}

impl StateMachine {
    /// The current gesture state.
    pub closed spec fn state(&self) -> State {
        self.state
    }

    /// The configuration the machine was built with.
    pub closed spec fn config(&self) -> Config {
        *self.config
    }

    pub open spec fn wf(&self) -> bool {
        state_wf(self.state())
    }

    pub fn new(config: &'static Config) -> (r: StateMachine)
        ensures
            r.wf(),
            r.state() == State::Idle,
            r.config() == *config,
    {
        StateMachine { state: State::Idle, config }
    }

    /// Returns the instant the button was pressed if currently in the
    /// `Pressed` state, or `None` otherwise.
    pub fn pressed_at(&self) -> (r: Option<TimeInstant>)
        ensures
            r == (match self.state() {
                State::Pressed { pressed_at, .. } => Some(pressed_at),
                _ => None,
            }),
    {
        match self.state {
            State::Pressed { pressed_at, .. } => Some(pressed_at),
            _ => None,
        }
    }

    /// Advances the machine by one sample: `edge` is the change of the
    /// logical input since the last call, if any, and `now` the current time.
    pub fn update(&mut self, edge: Option<Edge>, now: TimeInstant) -> (r: (Option<Event>, ServiceTiming))
        requires
            old(self).wf(),
        ensures
            final(self).wf(),
            final(self).config() == old(self).config(),
            (final(self).state(), r.0, r.1) == step(old(self).config(), old(self).state(), edge, now),
    {
        proof {
            lemma_step_wf(self.config(), self.state(), edge, now);
        }
        match self.state {
            State::Idle => match edge {
                Some(Edge::Press) => {
                    let next_hold_at = match now.checked_add(self.config.hold_delay) {
                        Some(t) => t,
                        None => now,
                    };
                    self.state = State::Pressed { pressed_at: now, next_hold_at, click_count: 0, hold_level: 0 };
                    (Some(Event::Press), ServiceTiming::Delay(self.config.hold_delay))
                },
                _ => (None, ServiceTiming::Idle),
            },
            State::Pressed { pressed_at, next_hold_at, click_count, hold_level } => match edge {
                Some(Edge::Release) => {
                    let duration = now.duration_since(pressed_at);
                    if hold_level > 0 {
                        // A hold was reported: this press is no click.
                        self.state = State::Idle;
                        (Some(Event::Release { duration }), ServiceTiming::Idle)
                    } else {
                        let new_count = click_count.saturating_add(1);
                        let at_max = self.config.reaches_cap(new_count);
                        self.state = State::WaitForMultiClick { click_count: new_count, released_at: now };
                        // At the cap the click is due at once: ask to be called back
                        // rather than wait for the timeout.
                        let timing = if at_max {
                            ServiceTiming::Immediate
                        } else {
                            ServiceTiming::Delay(self.config.click_timeout)
                        };
                        (Some(Event::Release { duration }), timing)
                    }
                },
                _ => {
                    let elapsed = now.duration_since(pressed_at);
                    let hold_elapsed = next_hold_at.duration_since(pressed_at);
                    if elapsed.as_millis() >= hold_elapsed.as_millis() {
                        let event = Event::Hold { clicks_before: click_count, level: hold_level };
                        let new_next_hold_at = match next_hold_at.checked_add(self.config.hold_interval) {
                            Some(t) => t,
                            None => next_hold_at,
                        };
                        self.state = State::Pressed {
                            pressed_at,
                            next_hold_at: new_next_hold_at,
                            click_count,
                            hold_level: hold_level.saturating_add(1),
                        };
                        (Some(event), ServiceTiming::Delay(self.config.hold_interval))
                    } else {
                        let remaining = hold_elapsed.saturating_sub(elapsed);
                        (None, ServiceTiming::Delay(remaining))
                    }
                },
            },
            State::WaitForMultiClick { click_count, released_at } => match edge {
                Some(Edge::Press) => {
                    let next_hold_at = match now.checked_add(self.config.hold_delay) {
                        Some(t) => t,
                        None => now,
                    };
                    self.state = State::Pressed { pressed_at: now, next_hold_at, click_count, hold_level: 0 };
                    (Some(Event::Press), ServiceTiming::Delay(self.config.hold_delay))
                },
                _ => {
                    if self.config.reaches_cap(click_count) {
                        self.state = State::Idle;
                        return (Some(Event::Click { count: click_count }), ServiceTiming::Idle);
                    }
                    let elapsed = now.duration_since(released_at);
                    if elapsed.as_millis() >= self.config.click_timeout.as_millis() {
                        self.state = State::Idle;
                        (Some(Event::Click { count: click_count }), ServiceTiming::Idle)
                    } else {
                        let remaining = self.config.click_timeout.saturating_sub(elapsed);
                        (None, ServiceTiming::Delay(remaining))
                    }
                },
            },
        }
    }
}

/// Every update keeps the state invariant.
pub proof fn lemma_step_wf(cfg: Config, s: State, edge: Option<Edge>, now: TimeInstant)
    requires
        state_wf(s),
    ensures
        state_wf(step(cfg, s, edge, now).0),
{
}

} // verus!
