use butt_head::{Debouncer, ServiceTiming, TimeDuration, TimeInstant};

fn dur(millis: u64) -> TimeDuration {
    TimeDuration::from_millis(millis)
}

fn ms(millis: u64) -> TimeInstant {
    TimeInstant::from_millis(millis)
}

#[test]
fn min_prefers_immediate() {
    let d = ServiceTiming::Delay(dur(5));
    assert_eq!(ServiceTiming::Immediate.min(d), ServiceTiming::Immediate);
    assert_eq!(d.min(ServiceTiming::Immediate), ServiceTiming::Immediate);
    assert_eq!(ServiceTiming::Idle.min(ServiceTiming::Immediate), ServiceTiming::Immediate);
}

#[test]
fn min_prefers_shorter_delay() {
    let short = ServiceTiming::Delay(dur(5));
    let long = ServiceTiming::Delay(dur(9));
    assert_eq!(short.min(long), short);
    assert_eq!(long.min(short), short);
    assert_eq!(short.min(short), short);
}

#[test]
fn min_prefers_delay_over_idle() {
    let d = ServiceTiming::Delay(dur(1000));
    assert_eq!(d.min(ServiceTiming::Idle), d);
    assert_eq!(ServiceTiming::Idle.min(d), d);
    assert_eq!(ServiceTiming::Idle.min(ServiceTiming::Idle), ServiceTiming::Idle);
}

#[test]
fn duration_arithmetic_saturates() {
    assert_eq!(dur(300).saturating_sub(dur(100)), dur(200));
    assert_eq!(dur(100).saturating_sub(dur(300)), dur(0));
    assert_eq!(ms(250).duration_since(ms(100)), dur(150));
    assert_eq!(ms(100).duration_since(ms(250)), dur(0));
    assert_eq!(dur(7).as_millis(), 7);
    assert_eq!(ms(7).as_millis(), 7);
}

#[test]
fn instant_addition_reports_overflow() {
    assert_eq!(ms(100).checked_add(dur(50)), Some(ms(150)));
    assert_eq!(ms(u64::MAX - 1).checked_add(dur(1)), Some(ms(u64::MAX)));
    assert_eq!(ms(u64::MAX).checked_add(dur(1)), None);
}

#[test]
fn debouncer_accepts_change_then_locks_out() {
    let mut debouncer = Debouncer::new(dur(20));
    assert_eq!(debouncer.update(false, ms(0)), (false, ServiceTiming::Idle));
    assert_eq!(debouncer.update(true, ms(10)), (true, ServiceTiming::Delay(dur(20))));
    // Bounces inside the lockout are ignored.
    assert_eq!(debouncer.update(false, ms(15)), (true, ServiceTiming::Delay(dur(15))));
    assert_eq!(debouncer.update(true, ms(29)), (true, ServiceTiming::Delay(dur(1))));
    // After the lockout a steady reading settles.
    assert_eq!(debouncer.update(true, ms(30)), (true, ServiceTiming::Idle));
    assert_eq!(debouncer.update(false, ms(40)), (false, ServiceTiming::Delay(dur(20))));
    assert_eq!(debouncer.update(false, ms(60)), (false, ServiceTiming::Idle));
}
