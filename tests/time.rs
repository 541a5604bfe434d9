use wstd::time::{interval, Duration, Instant, SystemTime, Timer};

#[test]
fn systemtime_duration_since() {
    let earlier = SystemTime::unix_epoch();
    // A wall-clock reading as the host would give it.
    let now = SystemTime::from_parts(1_700_000_000, 250_000_000);

    assert!(now.duration_since(&earlier).is_ok());
    assert!(now.duration_since(&now).is_ok_and(|x| x.as_secs() == 0));
    assert!(earlier.duration_since(&now).is_err());
}

#[test]
fn duration_since_exact_value() {
    let a = SystemTime::from_parts(10, 500);
    let b = SystemTime::from_parts(7, 200);
    let d = a.duration_since(&b).unwrap();
    assert_eq!(d.as_nanos(), 3_000_000_300);
    assert_eq!(d.as_secs(), 3);
    assert_eq!(d.as_millis(), 3_000);
}

#[test]
fn duration_since_compares_whole_times() {
    let a = SystemTime::from_parts(10, 0);
    let b = SystemTime::from_parts(7, 5);
    assert_eq!(a.duration_since(&b).unwrap().as_nanos(), 2_999_999_995);
    assert!(b.duration_since(&a).is_err());
}

#[test]
fn duration_since_too_long_for_a_duration() {
    let a = SystemTime::from_parts(u64::MAX, 0);
    let b = SystemTime::unix_epoch();
    assert!(a.duration_since(&b).is_err());
}

#[test]
fn duration_constructors() {
    assert_eq!(Duration::from_millis(100).as_nanos(), 100_000_000);
    assert_eq!(Duration::new(2, 5).as_nanos(), 2_000_000_005);
    assert_eq!(Duration::from_secs(3).as_millis(), 3_000);
}

#[test]
fn instant_arithmetic() {
    let a = Instant { nanos: 50 };
    let b = Instant { nanos: 80 };
    assert_eq!(b.duration_since(a).as_nanos(), 30);
    assert_eq!(a.duration_since(b).as_nanos(), 0);
    assert_eq!(a.checked_add(Duration::from_nanos(5)), Some(Instant { nanos: 55 }));
    assert_eq!(Instant { nanos: u64::MAX }.checked_add(Duration::from_nanos(1)), None);
}

#[test]
fn timers() {
    assert!(Timer::never().wait().is_never());
    let t = Timer::at(Instant { nanos: 7 });
    assert_eq!(t.wait().deadline, Some(Instant { nanos: 7 }));
    let t = Timer::after_from(Instant { nanos: 100 }, Duration::from_millis(100));
    assert_eq!(t.deadline, Some(Instant { nanos: 100_000_100 }));
    let t = Timer::after_from(Instant { nanos: u64::MAX }, Duration::from_nanos(1));
    assert!(t.wait().is_never());
}

#[test]
fn interval_timer_is_one_period_away() {
    let i = interval(Duration::from_millis(5));
    let t = i.next_timer_from(Instant { nanos: 1 });
    assert_eq!(t.deadline, Some(Instant { nanos: 5_000_001 }));
}
