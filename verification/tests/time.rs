use shvessel::time::{Clock, Duration, Instant, ManualClock};

#[test]
fn instant_and_duration_use_saturating_math() {
    let start = Instant::from_millis(10);
    let later = start + Duration::from_millis(25);

    assert_eq!(later.as_millis(), 35);
    assert_eq!((later - start).as_millis(), 25);
    assert_eq!((start - later).as_millis(), 0);
    assert_eq!(start.duration_until(later).as_millis(), 25);
}

#[test]
fn manual_clock_can_be_driven_by_tests_or_platform_shims() {
    let mut clock = ManualClock::zero();

    assert_eq!(clock.now_ms(), 0);
    clock.advance_millis(5);
    assert_eq!(clock.now(), Instant::from_millis(5));
    clock.set(Instant::from_millis(42));
    assert_eq!(clock.now_ms(), 42);
}

#[test]
fn checked_and_saturating_forms_agree() {
    let a = Duration::from_millis(u64::MAX - 1);
    let b = Duration::from_millis(5);
    assert_eq!(a.saturating_add(b).as_millis(), u64::MAX);
    assert_eq!(a.checked_add(b), None);
    assert_eq!(b.checked_add(b), Some(Duration::from_millis(10)));
    assert_eq!(b.saturating_sub(a), Duration::from_millis(0));
    assert_eq!(b.checked_sub(a), None);
    assert_eq!(a.checked_sub(b), Some(Duration::from_millis(u64::MAX - 6)));
    assert!(Duration::from_millis(0).is_zero());
    assert!(!b.is_zero());
    assert_eq!((a + b).as_millis(), u64::MAX);
    assert_eq!((b - a).as_millis(), 0);
    let mut c = b;
    c += b;
    assert_eq!(c.as_millis(), 10);
    c -= a;
    assert_eq!(c.as_millis(), 0);
}

#[test]
fn instants_saturate_at_both_ends() {
    let start = Instant::from_millis(10);
    assert_eq!(start.saturating_sub(Duration::from_millis(25)).as_millis(), 0);
    assert_eq!((start - Duration::from_millis(25)).as_millis(), 0);
    assert_eq!(start.checked_sub(Duration::from_millis(25)), None);
    assert_eq!(start.checked_sub(Duration::from_millis(4)), Some(Instant::from_millis(6)));
    let end = Instant::from_millis(u64::MAX);
    assert_eq!(end.saturating_add(Duration::from_millis(1)), end);
    assert_eq!(end.checked_add(Duration::from_millis(1)), None);
    assert_eq!(start.checked_add(Duration::from_millis(1)), Some(Instant::from_millis(11)));
    assert_eq!(start.checked_duration_since(end), None);
    assert_eq!(end.checked_duration_since(start), Some(Duration::from_millis(u64::MAX - 10)));
    assert_eq!(end.saturating_duration_since(start).as_millis(), u64::MAX - 10);
    assert_eq!(end.duration_until(start).as_millis(), 0);
    let mut moving = start;
    moving += Duration::from_millis(5);
    assert_eq!(moving.as_millis(), 15);
    moving -= Duration::from_millis(20);
    assert_eq!(moving.as_millis(), 0);
}

#[test]
fn conversions_keep_the_milliseconds() {
    let d: Duration = 42u64.into();
    assert_eq!(u64::from(d), 42);
    let i: Instant = 7u64.into();
    assert_eq!(u64::from(i), 7);
    assert_eq!(Duration::from(3u64), Duration::from_millis(3));
}

#[test]
fn manual_clock_saturates_and_reads_without_moving() {
    let mut clock = ManualClock::new(Instant::from_millis(u64::MAX - 1));
    clock.advance(Duration::from_millis(10));
    assert_eq!(clock.current_ms(), u64::MAX);
    assert_eq!(clock.now(), clock.now());
    assert_eq!(clock.current(), Instant::from_millis(u64::MAX));
    let default_clock: ManualClock = Default::default();
    assert_eq!(default_clock, ManualClock::zero());
}

#[test]
fn time_values_are_ordered_by_their_milliseconds() {
    assert!(Instant::from_millis(3) < Instant::from_millis(5));
    assert!(Instant::from_millis(5) >= Instant::from_millis(5));
    assert!(Duration::from_millis(7) > Duration::from_millis(2));
    assert_eq!(Duration::from_millis(2).cmp(&Duration::from_millis(2)), core::cmp::Ordering::Equal);
    assert_eq!(
        Instant::from_millis(9).partial_cmp(&Instant::from_millis(1)),
        Some(core::cmp::Ordering::Greater)
    );
}
