use butt_head::{ButtHead, Config, TimeDuration, TimeInstant};

const CONFIG: Config = Config {
    active_low: false,
    click_timeout: TimeDuration { millis: 300 },
    hold_delay: TimeDuration { millis: 500 },
    hold_interval: TimeDuration { millis: 200 },
    max_click_count: None,
};

fn new_button() -> ButtHead {
    ButtHead::new(&CONFIG)
}

fn ms(millis: u64) -> TimeInstant {
    TimeInstant::from_millis(millis)
}

// --- is_pressed ---

#[test]
fn is_pressed_false_initially() {
    let button = new_button();
    assert!(!button.is_pressed());
}

#[test]
fn is_pressed_true_after_press() {
    let mut button = new_button();
    button.update(true, ms(0));
    assert!(button.is_pressed());
}

#[test]
fn is_pressed_false_after_release() {
    let mut button = new_button();
    button.update(true, ms(0));
    button.update(false, ms(100));
    assert!(!button.is_pressed());
}

// --- pressed_duration ---

#[test]
fn pressed_duration_none_when_idle() {
    let button = new_button();
    assert_eq!(button.pressed_duration(ms(0)), None);
}

#[test]
fn pressed_duration_some_after_press() {
    let mut button = new_button();
    button.update(true, ms(0));
    assert_eq!(button.pressed_duration(ms(200)), Some(TimeDuration::from_millis(200)));
}

#[test]
fn pressed_duration_none_after_release() {
    let mut button = new_button();
    button.update(true, ms(0));
    button.update(false, ms(100));
    assert_eq!(button.pressed_duration(ms(200)), None);
}
