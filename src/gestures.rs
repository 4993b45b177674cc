//! Laws of whole gestures: what a sequence of samples fed to the state
//! machine yields, for short presses, click streaks and holds.

use vstd::prelude::*;

use crate::config::{at_cap, Config};
use crate::event::Event;
use crate::service_timing::ServiceTiming;
use crate::state_machine::{inc_u8, press_state, step, Edge, State};
use crate::time::{sat_sub, TimeDuration, TimeInstant};

verus! {

/// One sample handed to the state machine: an edge, if any, and its instant.
pub type Sample = (Option<Edge>, TimeInstant);

/// The state reached from `s` after the samples `inputs`, in order.
pub open spec fn run(cfg: Config, s: State, inputs: Seq<Sample>) -> State
    decreases inputs.len(),
{
    if inputs.len() == 0 {
        s
    } else {
        step(cfg, run(cfg, s, inputs.drop_last()), inputs.last().0, inputs.last().1).0
    }
}

/// The event and service timing returned for each of the samples `inputs`
/// fed in order from `s`.
pub open spec fn outputs(cfg: Config, s: State, inputs: Seq<Sample>) -> Seq<(Option<Event>, ServiceTiming)>
    decreases inputs.len(),
{
    if inputs.len() == 0 {
        seq![]
    } else {
        let r = step(cfg, run(cfg, s, inputs.drop_last()), inputs.last().0, inputs.last().1);
        outputs(cfg, s, inputs.drop_last()).push((r.1, r.2))
    }
}

/// Samples without an edge at each of the instants `ts`.
pub open spec fn polls(ts: Seq<TimeInstant>) -> Seq<Sample> {
    ts.map_values(|t: TimeInstant| (None::<Edge>, t))
}

/// Feeding two runs of samples one after the other is feeding their
/// concatenation.
pub proof fn lemma_run_concat(cfg: Config, s: State, a: Seq<Sample>, b: Seq<Sample>)
    ensures
        run(cfg, s, a + b) == run(cfg, run(cfg, s, a), b),
        outputs(cfg, s, a + b) == outputs(cfg, s, a) + outputs(cfg, run(cfg, s, a), b),
    decreases b.len(),
{
    if b.len() == 0 {
        assert(a + b =~= a);
        assert(outputs(cfg, s, a) + outputs(cfg, run(cfg, s, a), b) =~= outputs(cfg, s, a));
    } else {
        assert((a + b).drop_last() =~= a + b.drop_last());
        assert((a + b).last() == b.last());
        lemma_run_concat(cfg, s, a, b.drop_last());
        assert(outputs(cfg, s, a + b) =~= outputs(cfg, s, a) + outputs(cfg, run(cfg, s, a), b));
    }
}

/// The outputs of a single sample.
pub proof fn lemma_run_single(cfg: Config, s: State, x: Sample)
    ensures
        run(cfg, s, seq![x]) == step(cfg, s, x.0, x.1).0,
        outputs(cfg, s, seq![x]) == seq![(step(cfg, s, x.0, x.1).1, step(cfg, s, x.0, x.1).2)],
{
    assert(seq![x].drop_last() =~= Seq::<Sample>::empty());
    assert(seq![x].last() == x);
    assert(outputs(cfg, s, Seq::<Sample>::empty()) =~= seq![]);
    assert(outputs(cfg, s, seq![x]) =~= seq![(step(cfg, s, x.0, x.1).1, step(cfg, s, x.0, x.1).2)]);
}

/// Polls that each leave `s` as it is and emit nothing, taken together,
/// leave `s` as it is and emit nothing.
pub proof fn lemma_quiet_polls(cfg: Config, s: State, ts: Seq<TimeInstant>)
    requires
        forall|j: int| 0 <= j < ts.len() ==> step(cfg, s, None, #[trigger] ts[j]).0 == s && step(cfg, s, None, ts[j]).1 is None,
    ensures
        run(cfg, s, polls(ts)) == s,
        outputs(cfg, s, polls(ts)).len() == ts.len(),
        forall|j: int|
            0 <= j < ts.len() ==> #[trigger] outputs(cfg, s, polls(ts))[j] == (step(cfg, s, None, ts[j]).1, step(cfg, s, None, ts[j]).2),
    decreases ts.len(),
{
    if ts.len() > 0 {
        assert(polls(ts).drop_last() =~= polls(ts.drop_last()));
        lemma_quiet_polls(cfg, s, ts.drop_last());
        assert(ts[ts.len() - 1] == ts.last());
    }
}

/// The click count that a state carries into its next press.
pub open spec fn carried_count(s: State) -> u8 {
    match s {
        State::WaitForMultiClick { click_count, .. } => click_count,
        _ => 0,
    }
}

/// A press at `press`, polls at `held` while the button stays down, and the
/// release at `release`.
pub open spec fn press_release(press: TimeInstant, held: Seq<TimeInstant>, release: TimeInstant) -> Seq<Sample> {
    seq![(Some(Edge::Press), press)] + polls(held) + seq![(Some(Edge::Release), release)]
}

/// A press released before `hold_delay` has passed, with no poll in between
/// reaching the hold deadline.
pub open spec fn short_press(cfg: Config, press: TimeInstant, held: Seq<TimeInstant>, release: TimeInstant) -> bool {
    &&& press.millis <= release.millis
    &&& release.millis - press.millis < cfg.hold_delay.millis
    &&& held.len() > 0 ==> press.millis + cfg.hold_delay.millis <= u64::MAX
    &&& forall|j: int| 0 <= j < held.len() ==> sat_sub((#[trigger] held[j]).millis, press.millis) < cfg.hold_delay.millis
}

/// A press released before `hold_delay` yields `Press`, nothing while held,
/// then `Release` with the time between the two, and never a hold; the click
/// joins the streak.
pub proof fn lemma_press_release(cfg: Config, s: State, press: TimeInstant, held: Seq<TimeInstant>, release: TimeInstant)
    requires
        !(s is Pressed),
        short_press(cfg, press, held, release),
    ensures
        ({
            let out = outputs(cfg, s, press_release(press, held, release));
            &&& out.len() == held.len() + 2
            &&& out[0] == (Some(Event::Press), ServiceTiming::Delay(cfg.hold_delay))
            &&& forall|j: int| 1 <= j <= held.len() ==> (#[trigger] out[j]).0 is None
            &&& out[held.len() as int + 1].0 == Some(Event::Release { duration: TimeDuration { millis: (release.millis - press.millis) as u64 } })
            &&& out[held.len() as int + 1].1 == if at_cap(cfg, inc_u8(carried_count(s))) {
                ServiceTiming::Immediate
            } else {
                ServiceTiming::Delay(cfg.click_timeout)
            }
        }),
        run(cfg, s, press_release(press, held, release)) == (State::WaitForMultiClick {
            click_count: inc_u8(carried_count(s)),
            released_at: release,
        }),
{
    let c = carried_count(s);
    let down = press_state(cfg, press, c);
    let first = seq![(Some(Edge::Press), press)];
    let last = seq![(Some(Edge::Release), release)];
    lemma_run_single(cfg, s, first[0]);
    assert(first =~= seq![first[0]]);
    assert(run(cfg, s, first) == down);
    assert forall|j: int| 0 <= j < held.len() implies step(cfg, down, None, #[trigger] held[j]).0 == down && step(cfg, down, None, held[j]).1 is None by {
        assert(sat_sub((press.millis + cfg.hold_delay.millis) as u64, press.millis) == cfg.hold_delay.millis);
    }
    lemma_quiet_polls(cfg, down, held);
    lemma_run_concat(cfg, s, first, polls(held));
    lemma_run_single(cfg, down, last[0]);
    assert(last =~= seq![last[0]]);
    lemma_run_concat(cfg, s, first + polls(held), last);
    assert(press_release(press, held, release) == first + polls(held) + last);
}

/// Whether an event is a click.
pub open spec fn is_click(e: Option<Event>) -> bool {
    e matches Some(Event::Click { .. })
}

/// Whether no output of `out` is a click.
pub open spec fn no_click(out: Seq<(Option<Event>, ServiceTiming)>) -> bool {
    forall|k: int| 0 <= k < out.len() ==> !is_click((#[trigger] out[k]).0)
}

proof fn lemma_no_click_concat(a: Seq<(Option<Event>, ServiceTiming)>, b: Seq<(Option<Event>, ServiceTiming)>)
    requires
        no_click(a),
        no_click(b),
    ensures
        no_click(a + b),
{
    assert forall|k: int| 0 <= k < (a + b).len() implies !is_click((#[trigger] (a + b)[k]).0) by {
        if k >= a.len() {
            assert((a + b)[k] == b[k - a.len()]);
        }
    }
}

/// One tap of a click streak: polls while the button is up, the press, polls
/// while it is down, and the release.
pub type Tap = (Seq<TimeInstant>, TimeInstant, Seq<TimeInstant>, TimeInstant);

/// The samples of one tap.
pub open spec fn tap_inputs(tap: Tap) -> Seq<Sample> {
    polls(tap.0) + press_release(tap.1, tap.2, tap.3)
}

/// The samples of a sequence of taps, in order.
pub open spec fn streak_inputs(taps: Seq<Tap>) -> Seq<Sample>
    decreases taps.len(),
{
    if taps.len() == 0 {
        seq![]
    } else {
        streak_inputs(taps.drop_last()) + tap_inputs(taps.last())
    }
}

/// The taps form one click streak: each press is released before
/// `hold_delay`, and each later press comes less than `click_timeout` after
/// the previous release, with the polls in between on the timeline between
/// the two.
pub open spec fn click_streak(cfg: Config, taps: Seq<Tap>) -> bool {
    &&& forall|i: int| 0 <= i < taps.len() ==> short_press(cfg, (#[trigger] taps[i]).1, taps[i].2, taps[i].3)
    &&& forall|i: int|
        1 <= i < taps.len() ==> {
            let prev = taps[i - 1].3;
            let tap = #[trigger] taps[i];
            &&& prev.millis <= tap.1.millis
            &&& tap.1.millis - prev.millis < cfg.click_timeout.millis
            &&& forall|j: int| 0 <= j < tap.0.len() ==> prev.millis <= (#[trigger] tap.0[j]).millis <= tap.1.millis
        }
}

/// A click streak of `taps.len()` taps, with the cap not reached before its
/// last release, emits no click while it lasts; each release reports its
/// press time, and the last one leaves the machine waiting with the whole
/// count, asking to be called back at once exactly when the cap is reached.
pub proof fn lemma_click_streak(cfg: Config, taps: Seq<Tap>)
    requires
        1 <= taps.len() <= u8::MAX,
        click_streak(cfg, taps),
        forall|k: u8| 1 <= k < taps.len() ==> !at_cap(cfg, k),
    ensures
        run(cfg, State::Idle, streak_inputs(taps)) == (State::WaitForMultiClick {
            click_count: taps.len() as u8,
            released_at: taps.last().3,
        }),
        no_click(outputs(cfg, State::Idle, streak_inputs(taps))),
        outputs(cfg, State::Idle, streak_inputs(taps)).len() == streak_inputs(taps).len(),
        outputs(cfg, State::Idle, streak_inputs(taps)).last() == (
            Some(Event::Release { duration: TimeDuration { millis: (taps.last().3.millis - taps.last().1.millis) as u64 } }),
            if at_cap(cfg, taps.len() as u8) {
                ServiceTiming::Immediate
            } else {
                ServiceTiming::Delay(cfg.click_timeout)
            },
        ),
    decreases taps.len(),
{
    let n = taps.len();
    let prev_taps = taps.drop_last();
    let tap = taps.last();
    assert(tap == taps[n - 1]);
    let s = if n == 1 {
        State::Idle
    } else {
        State::WaitForMultiClick { click_count: (n - 1) as u8, released_at: taps[n - 2].3 }
    };
    if n == 1 {
        assert(prev_taps =~= Seq::<Tap>::empty());
        assert(streak_inputs(prev_taps) =~= Seq::<Sample>::empty());
    } else {
        assert(click_streak(cfg, prev_taps)) by {
            assert forall|i: int| 1 <= i < prev_taps.len() implies {
                let prev = prev_taps[i - 1].3;
                let t = #[trigger] prev_taps[i];
                &&& prev.millis <= t.1.millis
                &&& t.1.millis - prev.millis < cfg.click_timeout.millis
                &&& forall|j: int| 0 <= j < t.0.len() ==> prev.millis <= (#[trigger] t.0[j]).millis <= t.1.millis
            } by {
                assert(prev_taps[i] == taps[i]);
                assert(prev_taps[i - 1] == taps[i - 1]);
            }
            assert forall|i: int| 0 <= i < prev_taps.len() implies short_press(cfg, (#[trigger] prev_taps[i]).1, prev_taps[i].2, prev_taps[i].3) by {
                assert(prev_taps[i] == taps[i]);
            }
        }
        assert forall|k: u8| 1 <= k < prev_taps.len() implies !at_cap(cfg, k) by {}
        lemma_click_streak(cfg, prev_taps);
        assert(prev_taps.last() == taps[n - 2]);
    }
    let before = streak_inputs(prev_taps);
    assert(run(cfg, State::Idle, before) == s);
    let out_before = outputs(cfg, State::Idle, before);
    // The polls while the button is up change nothing.
    assert forall|j: int| 0 <= j < tap.0.len() implies step(cfg, s, None, #[trigger] tap.0[j]).0 == s && step(cfg, s, None, tap.0[j]).1 is None by {
        if n > 1 {
            assert(!at_cap(cfg, (n - 1) as u8));
        }
    }
    lemma_quiet_polls(cfg, s, tap.0);
    assert(no_click(outputs(cfg, s, polls(tap.0))));
    assert(short_press(cfg, tap.1, tap.2, tap.3));
    lemma_press_release(cfg, s, tap.1, tap.2, tap.3);
    let pr = press_release(tap.1, tap.2, tap.3);
    let out_pr = outputs(cfg, s, pr);
    assert(no_click(out_pr)) by {
        assert forall|k: int| 0 <= k < out_pr.len() implies !is_click((#[trigger] out_pr[k]).0) by {
            if k == 0 {
            } else if k <= tap.2.len() {
            } else {
                assert(k == tap.2.len() as int + 1);
            }
        }
    }
    lemma_run_concat(cfg, s, polls(tap.0), pr);
    lemma_no_click_concat(outputs(cfg, s, polls(tap.0)), out_pr);
    lemma_run_concat(cfg, State::Idle, before, tap_inputs(tap));
    lemma_no_click_concat(out_before, outputs(cfg, s, tap_inputs(tap)));
    assert(streak_inputs(taps) == before + tap_inputs(tap));
    assert(inc_u8(carried_count(s)) == n as u8);
    assert(outputs(cfg, s, tap_inputs(tap)).last() == out_pr.last());
}

/// Whether `click_timeout` has passed from `released` to `t`.
pub open spec fn timed_out(cfg: Config, released: TimeInstant, t: TimeInstant) -> bool {
    sat_sub(t.millis, released.millis) >= cfg.click_timeout.millis
}

/// Whether the instants `ts` never go back in time and none lies before `from`.
pub open spec fn monotone_from(from: TimeInstant, ts: Seq<TimeInstant>) -> bool {
    &&& forall|j: int| 0 <= j < ts.len() ==> from.millis <= (#[trigger] ts[j]).millis
    &&& forall|i: int, j: int| 0 <= i <= j < ts.len() ==> ts[i].millis <= ts[j].millis
}

/// Whether poll `j` of `ts` is the first one at which `click_timeout` has
/// passed since `released`.
pub open spec fn first_timed_out(cfg: Config, released: TimeInstant, ts: Seq<TimeInstant>, j: int) -> bool {
    &&& timed_out(cfg, released, ts[j])
    &&& (j == 0 || !timed_out(cfg, released, ts[j - 1]))
}

/// Polling a waiting streak below the cap reports its click exactly once, at
/// the first poll at least `click_timeout` after the release.
pub proof fn lemma_wait_for_click(cfg: Config, count: u8, released: TimeInstant, ts: Seq<TimeInstant>)
    requires
        !at_cap(cfg, count),
        monotone_from(released, ts),
    ensures
        ({
            let out = outputs(cfg, State::WaitForMultiClick { click_count: count, released_at: released }, polls(ts));
            &&& out.len() == ts.len()
            &&& forall|j: int|
                0 <= j < ts.len() ==> (#[trigger] out[j]).0 == if first_timed_out(cfg, released, ts, j) {
                    Some(Event::Click { count })
                } else {
                    None
                }
        }),
        run(cfg, State::WaitForMultiClick { click_count: count, released_at: released }, polls(ts)) == (if ts.len() > 0
            && timed_out(cfg, released, ts.last()) {
            State::Idle
        } else {
            State::WaitForMultiClick { click_count: count, released_at: released }
        }),
    decreases ts.len(),
{
    let s = State::WaitForMultiClick { click_count: count, released_at: released };
    if ts.len() > 0 {
        let pre = ts.drop_last();
        assert(polls(ts).drop_last() =~= polls(pre));
        assert(monotone_from(released, pre)) by {
            assert forall|i: int, j: int| 0 <= i <= j < pre.len() implies pre[i].millis <= pre[j].millis by {
                assert(pre[i] == ts[i] && pre[j] == ts[j]);
            }
            assert forall|j: int| 0 <= j < pre.len() implies released.millis <= (#[trigger] pre[j]).millis by {
                assert(pre[j] == ts[j]);
            }
        }
        lemma_wait_for_click(cfg, count, released, pre);
        let n = ts.len() - 1;
        assert(ts.last() == ts[n]);
        if n > 0 {
            assert(pre.last() == ts[n - 1]);
            assert(ts[n - 1].millis <= ts[n].millis);
        }
        let out = outputs(cfg, s, polls(ts));
        let out_pre = outputs(cfg, s, polls(pre));
        assert forall|j: int| 0 <= j < ts.len() implies (#[trigger] out[j]).0 == if first_timed_out(cfg, released, ts, j) {
            Some(Event::Click { count })
        } else {
            None
        } by {
            if j < n {
                assert(out[j] == out_pre[j]);
                assert(pre[j] == ts[j]);
                if j > 0 {
                    assert(pre[j - 1] == ts[j - 1]);
                }
            }
        }
    }
}

/// With no cap, a click streak of N taps yields no click while it lasts and
/// then exactly one `Click { count: N }`, at the first poll at least
/// `click_timeout` after the last release, never earlier.
pub proof fn lemma_click_after_timeout(cfg: Config, taps: Seq<Tap>, after: Seq<TimeInstant>)
    requires
        cfg.max_click_count is None,
        1 <= taps.len() <= u8::MAX,
        click_streak(cfg, taps),
        monotone_from(taps.last().3, after),
    ensures
        ({
            let streak = streak_inputs(taps);
            let out = outputs(cfg, State::Idle, streak + polls(after));
            &&& out.len() == streak.len() + after.len()
            &&& forall|k: int| 0 <= k < streak.len() ==> !is_click((#[trigger] out[k]).0)
            &&& forall|j: int|
                0 <= j < after.len() ==> (#[trigger] out[streak.len() + j]).0 == if first_timed_out(cfg, taps.last().3, after, j) {
                    Some(Event::Click { count: taps.len() as u8 })
                } else {
                    None
                }
        }),
{
    let streak = streak_inputs(taps);
    lemma_click_streak(cfg, taps);
    let s = run(cfg, State::Idle, streak);
    lemma_wait_for_click(cfg, taps.len() as u8, taps.last().3, after);
    lemma_run_concat(cfg, State::Idle, streak, polls(after));
    let out = outputs(cfg, State::Idle, streak + polls(after));
    let a = outputs(cfg, State::Idle, streak);
    let b = outputs(cfg, s, polls(after));
    assert(out == a + b);
    assert forall|k: int| 0 <= k < streak.len() implies !is_click((#[trigger] out[k]).0) by {
        assert(out[k] == a[k]);
    }
    assert forall|j: int| 0 <= j < after.len() implies (#[trigger] out[streak.len() + j]).0 == if first_timed_out(cfg, taps.last().3, after, j) {
        Some(Event::Click { count: taps.len() as u8 })
    } else {
        None
    } by {
        assert(out[streak.len() + j] == b[j]);
    }
}

/// With the cap set to k, the k-th release of a streak asks to be called
/// back at once, and the very next call, whenever it comes, reports
/// `Click { count: k }` without waiting for `click_timeout`.
pub proof fn lemma_click_at_cap(cfg: Config, taps: Seq<Tap>)
    requires
        cfg.max_click_count == Some(taps.len() as u8),
        1 <= taps.len() <= u8::MAX,
        click_streak(cfg, taps),
    ensures
        ({
            let streak = streak_inputs(taps);
            let end = run(cfg, State::Idle, streak);
            &&& no_click(outputs(cfg, State::Idle, streak))
            &&& outputs(cfg, State::Idle, streak).last().1 == ServiceTiming::Immediate
            &&& forall|t: TimeInstant|
                #[trigger] step(cfg, end, None, t) == (State::Idle, Some(Event::Click { count: taps.len() as u8 }), ServiceTiming::Idle)
        }),
{
    lemma_click_streak(cfg, taps);
}

/// The instant of the hold event of level `j` for a press at `pressed`:
/// `hold_delay` after the press, then every `hold_interval`.
pub open spec fn hold_deadline(cfg: Config, pressed: TimeInstant, j: int) -> int {
    pressed.millis + cfg.hold_delay.millis + j * cfg.hold_interval.millis
}

/// `n` held at `u8::MAX`.
pub open spec fn clamp_u8(n: int) -> u8 {
    if n < u8::MAX {
        n as u8
    } else {
        u8::MAX
    }
}

proof fn lemma_next_deadline(cfg: Config, pressed: TimeInstant, j: int)
    ensures
        hold_deadline(cfg, pressed, j + 1) == hold_deadline(cfg, pressed, j) + cfg.hold_interval.millis,
        j >= 0 ==> hold_deadline(cfg, pressed, j) <= hold_deadline(cfg, pressed, j + 1),
{
    assert((j + 1) * cfg.hold_interval.millis == j * cfg.hold_interval.millis + cfg.hold_interval.millis) by (nonlinear_arith);
}

proof fn lemma_deadlines_grow(cfg: Config, pressed: TimeInstant, j: int)
    requires
        j >= 0,
    ensures
        hold_deadline(cfg, pressed, 0) <= hold_deadline(cfg, pressed, j),
{
    assert(j * cfg.hold_interval.millis >= 0) by (nonlinear_arith)
        requires
            j >= 0,
    ;
}

/// While a press lasts, one poll in each hold interval (poll `j` at or after
/// the deadline of level `j` and before the next one) fires
/// `Hold { clicks_before, level: j }` each time.
pub proof fn lemma_hold_repeats(cfg: Config, pressed: TimeInstant, clicks_before: u8, ts: Seq<TimeInstant>)
    requires
        ts.len() <= u8::MAX + 1,
        ts.len() > 0 ==> hold_deadline(cfg, pressed, ts.len() - 1) <= u64::MAX,
        forall|j: int|
            0 <= j < ts.len() ==> hold_deadline(cfg, pressed, j) <= (#[trigger] ts[j]).millis < hold_deadline(cfg, pressed, j + 1),
    ensures
        ({
            let out = outputs(cfg, press_state(cfg, pressed, clicks_before), polls(ts));
            &&& out.len() == ts.len()
            &&& forall|j: int|
                0 <= j < ts.len() ==> #[trigger] out[j] == (
                    Some(Event::Hold { clicks_before, level: j as u8 }),
                    ServiceTiming::Delay(cfg.hold_interval),
                )
        }),
        ts.len() > 0 ==> run(cfg, press_state(cfg, pressed, clicks_before), polls(ts)) == (State::Pressed {
            pressed_at: pressed,
            next_hold_at: if hold_deadline(cfg, pressed, ts.len() as int) <= u64::MAX {
                TimeInstant { millis: hold_deadline(cfg, pressed, ts.len() as int) as u64 }
            } else {
                TimeInstant { millis: hold_deadline(cfg, pressed, ts.len() - 1) as u64 }
            },
            click_count: clicks_before,
            hold_level: clamp_u8(ts.len() as int),
        }),
    decreases ts.len(),
{
    let s0 = press_state(cfg, pressed, clicks_before);
    lemma_next_deadline(cfg, pressed, 0);
    assert(hold_deadline(cfg, pressed, 0) == pressed.millis + cfg.hold_delay.millis);
    if ts.len() > 0 {
        let m = ts.len() - 1;
        let pre = ts.drop_last();
        assert(polls(ts).drop_last() =~= polls(pre));
        assert(ts.last() == ts[m]);
        if m > 0 {
            lemma_next_deadline(cfg, pressed, m - 1);
        }
        lemma_next_deadline(cfg, pressed, m);
        assert forall|j: int|
            0 <= j < pre.len() implies hold_deadline(cfg, pressed, j) <= (#[trigger] pre[j]).millis < hold_deadline(cfg, pressed, j + 1) by {
            assert(pre[j] == ts[j]);
        }
        lemma_hold_repeats(cfg, pressed, clicks_before, pre);
        let s = run(cfg, s0, polls(pre));
        assert(s == State::Pressed {
            pressed_at: pressed,
            next_hold_at: TimeInstant { millis: hold_deadline(cfg, pressed, m) as u64 },
            click_count: clicks_before,
            hold_level: m as u8,
        });
        let out = outputs(cfg, s0, polls(ts));
        let out_pre = outputs(cfg, s0, polls(pre));
        assert forall|j: int|
            0 <= j < ts.len() implies #[trigger] out[j] == (
                Some(Event::Hold { clicks_before, level: j as u8 }),
                ServiceTiming::Delay(cfg.hold_interval),
            ) by {
            if j < m {
                assert(out[j] == out_pre[j]);
            }
        }
    }
}

/// A press held past `hold_delay` fires no hold before it, then one hold per
/// `hold_interval` with levels 0, 1, 2, ..., all counting the clicks before
/// the press; its release reports the whole press time and ends the streak,
/// so no click follows.
pub proof fn lemma_hold_suppresses_click(
    cfg: Config,
    pressed: TimeInstant,
    clicks_before: u8,
    early: Seq<TimeInstant>,
    holds: Seq<TimeInstant>,
    release: TimeInstant,
    after: Seq<TimeInstant>,
)
    requires
        1 <= holds.len() <= u8::MAX + 1,
        hold_deadline(cfg, pressed, holds.len() - 1) <= u64::MAX,
        forall|j: int| 0 <= j < early.len() ==> pressed.millis <= (#[trigger] early[j]).millis < hold_deadline(cfg, pressed, 0),
        forall|j: int|
            0 <= j < holds.len() ==> hold_deadline(cfg, pressed, j) <= (#[trigger] holds[j]).millis < hold_deadline(cfg, pressed, j + 1),
        pressed.millis <= release.millis,
    ensures
        ({
            let s0 = press_state(cfg, pressed, clicks_before);
            let inputs = polls(early) + polls(holds) + seq![(Some(Edge::Release), release)] + polls(after);
            let out = outputs(cfg, s0, inputs);
            let k = early.len() + holds.len() as int;
            &&& out.len() == inputs.len()
            &&& forall|j: int| 0 <= j < early.len() ==> (#[trigger] out[j]).0 is None
            &&& forall|j: int|
                0 <= j < holds.len() ==> #[trigger] out[early.len() + j] == (
                    Some(Event::Hold { clicks_before, level: j as u8 }),
                    ServiceTiming::Delay(cfg.hold_interval),
                )
            &&& out[k] == (
                Some(Event::Release { duration: TimeDuration { millis: (release.millis - pressed.millis) as u64 } }),
                ServiceTiming::Idle,
            )
            &&& forall|j: int| k < j < out.len() ==> #[trigger] out[j] == (None::<Event>, ServiceTiming::Idle)
            &&& run(cfg, s0, inputs) == State::Idle
        }),
{
    let s0 = press_state(cfg, pressed, clicks_before);
    assert(hold_deadline(cfg, pressed, 0) == pressed.millis + cfg.hold_delay.millis);
    assert forall|j: int| 0 <= j < early.len() implies step(cfg, s0, None, #[trigger] early[j]).0 == s0 && step(cfg, s0, None, early[j]).1 is None by {
        lemma_deadlines_grow(cfg, pressed, holds.len() - 1);
    }
    lemma_quiet_polls(cfg, s0, early);
    lemma_hold_repeats(cfg, pressed, clicks_before, holds);
    let s1 = run(cfg, s0, polls(holds));
    let rel = seq![(Some(Edge::Release), release)];
    lemma_run_single(cfg, s1, rel[0]);
    assert(rel =~= seq![rel[0]]);
    assert(forall|j: int| 0 <= j < after.len() ==> step(cfg, State::Idle, None, #[trigger] after[j]) == (State::Idle, None::<Event>, ServiceTiming::Idle));
    lemma_quiet_polls(cfg, State::Idle, after);
    let oa = outputs(cfg, State::Idle, polls(after));
    let a = polls(early);
    let b = polls(holds);
    lemma_run_concat(cfg, s0, a, b);
    lemma_run_concat(cfg, s0, a + b, rel);
    lemma_run_concat(cfg, s0, a + b + rel, polls(after));
    let out = outputs(cfg, s0, a + b + rel + polls(after));
    let oe = outputs(cfg, s0, a);
    let oh = outputs(cfg, s0, b);
    let or = outputs(cfg, s1, rel);
    assert(out == oe + oh + or + oa);
    let k = early.len() + holds.len() as int;
    assert forall|j: int| 0 <= j < early.len() implies (#[trigger] out[j]).0 is None by {
        assert(out[j] == oe[j]);
    }
    assert forall|j: int|
        0 <= j < holds.len() implies #[trigger] out[early.len() + j] == (
            Some(Event::Hold { clicks_before, level: j as u8 }),
            ServiceTiming::Delay(cfg.hold_interval),
        ) by {
        assert(out[early.len() + j] == oh[j]);
    }
    assert(out[k] == or[0]);
    assert forall|j: int| k < j < out.len() implies #[trigger] out[j] == (None::<Event>, ServiceTiming::Idle) by {
        assert(out[j] == oa[j - k - 1]);
    }
}

} // verus!
