use vstd::prelude::*;

use crate::config::{at_cap, Config};
use crate::event::Event;
use crate::service_timing::ServiceTiming;
use crate::state_machine::{step, Edge, State, StateMachine};
use crate::time::{sat_sub, TimeDuration, TimeInstant};

verus! {

/// The result of a single `update` call.
#[derive(Clone, Copy, Debug, PartialEq, Eq, Structural)]
pub struct UpdateResult {
    /// The event produced by this update, if any.
    pub event: Option<Event>,
    /// When to call `update` again.
    pub next_service: ServiceTiming,
}

/// The logical input for a raw pin reading: the reading itself, or its
/// negation under active-low polarity.
pub open spec fn logical_input(cfg: Config, raw: bool) -> bool {
    raw != cfg.active_low
}

/// The edge seen when the logical input is `input` and the button was down
/// (`was_down`) before.
pub open spec fn edge_of(was_down: bool, input: bool) -> Option<Edge> {
    if input == was_down {
        None
    } else if input {
        Some(Edge::Press)
    } else {
        Some(Edge::Release)
    }
}

/// What one `update(raw, now)` does from state `s`: the next state, the
/// event and the service timing.
pub open spec fn button_step(cfg: Config, s: State, raw: bool, now: TimeInstant) -> (State, Option<Event>, ServiceTiming) {
    step(cfg, s, edge_of(s is Pressed, logical_input(cfg, raw)), now)
}

/// Button input processor.
///
/// Expects clean, debounced input: every change of the reading is taken as
/// a press or a release.
pub struct ButtHead {
    prev_input: bool,
    state_machine: StateMachine,
    config: &'static Config,
}

impl ButtHead {
    /// The gesture state.
    pub closed spec fn state(&self) -> State {
        self.state_machine.state()
    }

    /// The configuration the processor was built with.
    pub closed spec fn config(&self) -> Config {
        *self.config
    }

    /// The processor's invariant: the stored input is down exactly while the
    /// machine is in `Pressed`, and both share one configuration.
    pub closed spec fn wf(&self) -> bool {
        &&& self.state_machine.wf()
        &&& self.prev_input == (self.state_machine.state() is Pressed)
        &&& self.state_machine.config() == *self.config
    }

    /// Creates a processor in the idle state for the given configuration.
    pub fn new(config: &'static Config) -> (r: ButtHead)
        ensures
            r.wf(),
            r.state() == State::Idle,
            r.config() == *config,
    {
        ButtHead { prev_input: false, state_machine: StateMachine::new(config), config }
    }

    /// Returns `true` while the button is down.
    pub fn is_pressed(&self) -> (r: bool)
        requires
            self.wf(),
        ensures
            r == (self.state() is Pressed),
    {
        self.prev_input
    }

    /// How long the button has been down at `now`, or `None` while it is up.
    pub fn pressed_duration(&self, now: TimeInstant) -> (r: Option<TimeDuration>)
        ensures
            r == (match self.state() {
                State::Pressed { pressed_at, .. } => Some((TimeDuration { millis: sat_sub(now.millis, pressed_at.millis) })),
                _ => None,
            }),
    {
        match self.state_machine.pressed_at() {
            Some(at) => Some(now.duration_since(at)),
            None => None,
        }
    }

    /// Advances the processor by one sample. `is_pressed` is the raw pin
    /// reading (before active-low inversion) and `now` the current time.
    /// Returns the resulting event and when to call again.
    pub fn update(&mut self, is_pressed: bool, now: TimeInstant) -> (r: UpdateResult)
        requires
            old(self).wf(),
        ensures
            final(self).wf(),
            final(self).config() == old(self).config(),
            (final(self).state(), r.event, r.next_service) == button_step(old(self).config(), old(self).state(), is_pressed, now),
    {
        let input = if self.config.active_low {
            !is_pressed
        } else {
            is_pressed
        };
        let edge = if input != self.prev_input {
            self.prev_input = input;
            Some(
                if input {
                    Edge::Press
                } else {
                    Edge::Release
                },
            )
        } else {
            None
        };
        let (event, next_service) = self.state_machine.update(edge, now);
        UpdateResult { event, next_service }
    }
}

/// Whether a deadline of `s` has come at `now`, so that an update without an
/// edge emits an event: the hold deadline of a press, or the end of a click
/// streak by its cap or by `click_timeout`.
pub open spec fn deadline_due(cfg: Config, s: State, now: TimeInstant) -> bool {
    match s {
        State::Idle => false,
        State::Pressed { pressed_at, next_hold_at, .. } => sat_sub(now.millis, pressed_at.millis) >= sat_sub(
            next_hold_at.millis,
            pressed_at.millis,
        ),
        State::WaitForMultiClick { click_count, released_at } => at_cap(cfg, click_count) || sat_sub(
            now.millis,
            released_at.millis,
        ) >= cfg.click_timeout.millis,
    }
}

/// Repeating an update with the same reading at the same instant makes no
/// edge: the repeat emits an event exactly when a deadline of the state left
/// by the first call is already due at that instant.
pub proof fn lemma_repeat_update(cfg: Config, s: State, raw: bool, now: TimeInstant)
    ensures
        ({
            let s1 = button_step(cfg, s, raw, now).0;
            &&& edge_of(s1 is Pressed, logical_input(cfg, raw)) is None
            &&& (button_step(cfg, s1, raw, now).1 is Some <==> deadline_due(cfg, s1, now))
        }),
{
}

/// The usual case of a repeated update: after an update that reported a press
/// or a release, the same reading at the same instant emits nothing, when
/// `hold_delay` and `click_timeout` are positive, the hold deadline of the
/// press is representable, and the release did not reach the click cap.
pub proof fn lemma_repeat_after_edge(cfg: Config, s: State, raw: bool, now: TimeInstant)
    requires
        button_step(cfg, s, raw, now).1 matches Some(e) && (e is Press || e is Release),
        cfg.hold_delay.millis > 0,
        cfg.click_timeout.millis > 0,
        now.millis + cfg.hold_delay.millis <= u64::MAX,
        button_step(cfg, s, raw, now).2 != ServiceTiming::Immediate,
    ensures
        button_step(cfg, button_step(cfg, s, raw, now).0, raw, now).1 is None,
{
}

/// Active-low polarity reads the pin the other way round: a low reading is a
/// press and a high one a release, and every update does exactly what the
/// opposite reading does under active-high polarity.
pub proof fn lemma_active_low(cfg: Config, s: State, raw: bool, now: TimeInstant)
    requires
        cfg.active_low,
    ensures
        logical_input(cfg, false),
        !logical_input(cfg, true),
        button_step(cfg, s, raw, now) == button_step((Config { active_low: false, ..cfg }), s, !raw, now),
{
}

} // verus!
