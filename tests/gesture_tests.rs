use butt_head::{ButtHead, Config, Edge, Event, ServiceTiming, StateMachine, TimeDuration, TimeInstant};

const CONFIG: Config = Config {
    active_low: false,
    click_timeout: TimeDuration { millis: 300 },
    hold_delay: TimeDuration { millis: 500 },
    hold_interval: TimeDuration { millis: 200 },
    max_click_count: None,
};

const ACTIVE_LOW_CONFIG: Config = Config {
    active_low: true,
    click_timeout: TimeDuration { millis: 300 },
    hold_delay: TimeDuration { millis: 500 },
    hold_interval: TimeDuration { millis: 200 },
    max_click_count: None,
};

const CAP_TWO_CONFIG: Config = Config {
    active_low: false,
    click_timeout: TimeDuration { millis: 300 },
    hold_delay: TimeDuration { millis: 500 },
    hold_interval: TimeDuration { millis: 200 },
    max_click_count: Some(2),
};

const CAP_ONE_CONFIG: Config = Config {
    active_low: false,
    click_timeout: TimeDuration { millis: 300 },
    hold_delay: TimeDuration { millis: 500 },
    hold_interval: TimeDuration { millis: 200 },
    max_click_count: Some(1),
};

const ZERO_HOLD_DELAY_CONFIG: Config = Config {
    active_low: false,
    click_timeout: TimeDuration { millis: 300 },
    hold_delay: TimeDuration { millis: 0 },
    hold_interval: TimeDuration { millis: 200 },
    max_click_count: None,
};

fn ms(millis: u64) -> TimeInstant {
    TimeInstant::from_millis(millis)
}

fn dur(millis: u64) -> TimeDuration {
    TimeDuration::from_millis(millis)
}

fn click(button: &mut ButtHead, down: u64, up: u64) {
    assert_eq!(button.update(true, ms(down)).event, Some(Event::Press));
    assert_eq!(button.update(false, ms(up)).event, Some(Event::Release { duration: dur(up - down) }));
}

// --- Scenarios with the reference configuration ---

#[test]
fn scenario_single_click() {
    let mut button = ButtHead::new(&CONFIG);
    assert_eq!(button.update(true, ms(0)).event, Some(Event::Press));
    assert_eq!(button.update(false, ms(100)).event, Some(Event::Release { duration: dur(100) }));
    for t in [150, 250, 399] {
        assert_eq!(button.update(false, ms(t)).event, None);
    }
    assert_eq!(button.update(false, ms(400)).event, Some(Event::Click { count: 1 }));
    assert_eq!(button.update(false, ms(500)).event, None);
}

#[test]
fn scenario_double_click() {
    let mut button = ButtHead::new(&CONFIG);
    click(&mut button, 0, 100);
    click(&mut button, 200, 300);
    for t in [350, 500, 599] {
        assert_eq!(button.update(false, ms(t)).event, None);
    }
    assert_eq!(button.update(false, ms(600)).event, Some(Event::Click { count: 2 }));
}

#[test]
fn scenario_hold_repeats_without_click() {
    let mut button = ButtHead::new(&CONFIG);
    assert_eq!(button.update(true, ms(0)).event, Some(Event::Press));
    assert_eq!(button.update(true, ms(499)).event, None);
    assert_eq!(button.update(true, ms(500)).event, Some(Event::Hold { clicks_before: 0, level: 0 }));
    assert_eq!(button.update(true, ms(600)).event, None);
    assert_eq!(button.update(true, ms(700)).event, Some(Event::Hold { clicks_before: 0, level: 1 }));
    let result = button.update(false, ms(800));
    assert_eq!(result.event, Some(Event::Release { duration: dur(800) }));
    assert_eq!(result.next_service, ServiceTiming::Idle);
    for t in [900, 1100, 5000] {
        assert_eq!(button.update(false, ms(t)).event, None);
    }
}

#[test]
fn scenario_active_low_press() {
    let mut button = ButtHead::new(&ACTIVE_LOW_CONFIG);
    assert_eq!(button.update(false, ms(0)).event, Some(Event::Press));
    assert!(button.is_pressed());
}

// --- Repeating an update ---

#[test]
fn repeated_update_emits_nothing() {
    let mut button = ButtHead::new(&CONFIG);
    assert_eq!(button.update(false, ms(0)).event, None);
    assert_eq!(button.update(false, ms(0)).event, None);
    assert_eq!(button.update(true, ms(10)).event, Some(Event::Press));
    assert_eq!(button.update(true, ms(10)).event, None);
    assert_eq!(button.update(false, ms(50)).event, Some(Event::Release { duration: dur(40) }));
    assert_eq!(button.update(false, ms(50)).event, None);
}

#[test]
fn repeated_update_fires_a_due_hold() {
    // With no hold delay the hold deadline is due at the press itself.
    let mut button = ButtHead::new(&ZERO_HOLD_DELAY_CONFIG);
    assert_eq!(button.update(true, ms(10)).event, Some(Event::Press));
    assert_eq!(button.update(true, ms(10)).event, Some(Event::Hold { clicks_before: 0, level: 0 }));
}

// --- Click streaks ---

#[test]
fn four_clicks_report_once_after_timeout() {
    let mut button = ButtHead::new(&CONFIG);
    click(&mut button, 0, 50);
    assert_eq!(button.update(false, ms(200)).event, None);
    click(&mut button, 300, 350);
    click(&mut button, 600, 650);
    click(&mut button, 900, 950);
    assert_eq!(button.update(false, ms(1249)).event, None);
    assert_eq!(button.update(false, ms(1250)).event, Some(Event::Click { count: 4 }));
    assert_eq!(button.update(false, ms(1251)).event, None);
}

#[test]
fn late_poll_still_reports_click() {
    let mut button = ButtHead::new(&CONFIG);
    click(&mut button, 0, 100);
    assert_eq!(button.update(false, ms(10_000)).event, Some(Event::Click { count: 1 }));
}

#[test]
fn click_count_stops_at_u8_max() {
    let mut button = ButtHead::new(&CONFIG);
    for i in 0..300u64 {
        click(&mut button, i * 100, i * 100 + 10);
    }
    assert_eq!(button.update(false, ms(40_000)).event, Some(Event::Click { count: 255 }));
}

#[test]
fn cap_reached_asks_for_immediate_service() {
    let mut button = ButtHead::new(&CAP_TWO_CONFIG);
    button.update(true, ms(0));
    let first = button.update(false, ms(100));
    assert_eq!(first.next_service, ServiceTiming::Delay(dur(300)));
    button.update(true, ms(150));
    let second = button.update(false, ms(200));
    assert_eq!(second.event, Some(Event::Release { duration: dur(50) }));
    assert_eq!(second.next_service, ServiceTiming::Immediate);
    let result = button.update(false, ms(200));
    assert_eq!(result.event, Some(Event::Click { count: 2 }));
    assert_eq!(result.next_service, ServiceTiming::Idle);
}

#[test]
fn cap_of_one_reports_every_click_at_once() {
    let mut button = ButtHead::new(&CAP_ONE_CONFIG);
    button.update(true, ms(0));
    assert_eq!(button.update(false, ms(30)).next_service, ServiceTiming::Immediate);
    assert_eq!(button.update(false, ms(31)).event, Some(Event::Click { count: 1 }));
}

#[test]
fn click_then_long_hold_counts_clicks_before() {
    let mut button = ButtHead::new(&CONFIG);
    click(&mut button, 0, 100);
    button.update(true, ms(200));
    assert_eq!(button.update(true, ms(700)).event, Some(Event::Hold { clicks_before: 1, level: 0 }));
    assert_eq!(button.update(true, ms(900)).event, Some(Event::Hold { clicks_before: 1, level: 1 }));
}

#[test]
fn late_poll_fires_one_hold_per_call() {
    let mut button = ButtHead::new(&CONFIG);
    button.update(true, ms(0));
    assert_eq!(button.update(true, ms(2000)).event, Some(Event::Hold { clicks_before: 0, level: 0 }));
    assert_eq!(button.update(true, ms(2000)).event, Some(Event::Hold { clicks_before: 0, level: 1 }));
}

// --- Active low ---

#[test]
fn active_low_high_reading_at_rest_is_no_press() {
    let mut button = ButtHead::new(&ACTIVE_LOW_CONFIG);
    let result = button.update(true, ms(0));
    assert_eq!(result.event, None);
    assert_eq!(result.next_service, ServiceTiming::Idle);
    assert!(!button.is_pressed());
}

// --- End of the timeline ---

#[test]
fn unrepresentable_hold_deadline_is_due_at_once() {
    let mut button = ButtHead::new(&CONFIG);
    let near_end = u64::MAX - 100;
    assert_eq!(button.update(true, ms(near_end)).event, Some(Event::Press));
    assert_eq!(button.update(true, ms(near_end + 1)).event, Some(Event::Hold { clicks_before: 0, level: 0 }));
}

#[test]
fn timestamps_going_back_give_zero_durations() {
    let mut button = ButtHead::new(&CONFIG);
    button.update(true, ms(1000));
    assert_eq!(button.pressed_duration(ms(500)), Some(dur(0)));
    assert_eq!(button.update(false, ms(900)).event, Some(Event::Release { duration: dur(0) }));
}

// --- State machine ---

#[test]
fn state_machine_reports_press_instant() {
    let mut machine = StateMachine::new(&CONFIG);
    assert_eq!(machine.pressed_at(), None);
    let (event, timing) = machine.update(Some(Edge::Press), ms(42));
    assert_eq!(event, Some(Event::Press));
    assert_eq!(timing, ServiceTiming::Delay(dur(500)));
    assert_eq!(machine.pressed_at(), Some(ms(42)));
    machine.update(Some(Edge::Release), ms(60));
    assert_eq!(machine.pressed_at(), None);
}

#[test]
fn state_machine_ignores_release_when_idle() {
    let mut machine = StateMachine::new(&CONFIG);
    assert_eq!(machine.update(Some(Edge::Release), ms(5)), (None, ServiceTiming::Idle));
}
