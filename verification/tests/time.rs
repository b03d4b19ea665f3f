use oncall_ai::time::{TimeSpan, Timestamp, MAX_SECS, MAX_SPAN_NANOS, MAX_SPAN_SECS, MIN_SECS};

fn at(secs: i64, nanos: u32) -> Timestamp {
    Timestamp::new(secs, nanos).expect("valid time")
}

#[test]
fn the_range_of_times_is_that_of_the_calendar() {
    assert_eq!(chrono::DateTime::<chrono::Utc>::MIN_UTC.timestamp(), MIN_SECS);
    assert_eq!(chrono::DateTime::<chrono::Utc>::MAX_UTC.timestamp(), MAX_SECS);
    assert!(Timestamp::new(MIN_SECS, 0).is_some());
    assert!(Timestamp::new(MIN_SECS - 1, 0).is_none());
    assert!(Timestamp::new(MAX_SECS, 999_999_999).is_some());
    assert!(Timestamp::new(MAX_SECS + 1, 0).is_none());
}

#[test]
fn the_longest_span_is_that_of_the_calendar() {
    assert_eq!(chrono::TimeDelta::MAX.num_seconds(), MAX_SPAN_SECS);
    assert_eq!(u32::try_from(chrono::TimeDelta::MAX.subsec_nanos()), Ok(MAX_SPAN_NANOS));
    assert!(TimeSpan::new(MAX_SPAN_SECS, MAX_SPAN_NANOS).is_some());
    assert!(TimeSpan::new(MAX_SPAN_SECS, MAX_SPAN_NANOS + 1).is_none());
    assert!(TimeSpan::new(-MAX_SPAN_SECS - 1, 1_000_000_000 - MAX_SPAN_NANOS).is_some());
    assert!(TimeSpan::new(-MAX_SPAN_SECS - 1, 999_999_999 - MAX_SPAN_NANOS).is_none());
    assert!(TimeSpan::new(0, 1_000_000_000).is_none());
}

#[test]
fn a_leap_second_ends_a_minute() {
    for secs in [59, -1, 119, MAX_SECS] {
        assert!(Timestamp::new(secs, 1_500_000_000).is_some());
        assert!(chrono::DateTime::from_timestamp(secs, 1_500_000_000).is_some());
    }
    for secs in [58, 0, -2, 60] {
        assert!(Timestamp::new(secs, 1_500_000_000).is_none());
        assert!(chrono::DateTime::from_timestamp(secs, 1_500_000_000).is_none());
    }
    assert!(Timestamp::new(59, 2_000_000_000).is_none());
}

#[test]
fn a_span_before_a_time_is_the_exact_difference() {
    let earlier = at(100, 200).checked_sub(TimeSpan::from_secs(60)).expect("in range");
    assert_eq!((earlier.secs(), earlier.nanos()), (40, 200));
    let half = TimeSpan::new(0, 500_000_000).expect("valid span");
    let earlier = at(10, 0).checked_sub(half).expect("in range");
    assert_eq!((earlier.secs(), earlier.nanos()), (9, 500_000_000));
    let back = TimeSpan::new(-5, 0).expect("valid span");
    assert_eq!(at(10, 7).checked_sub(back), Some(at(15, 7)));
}

#[test]
fn no_time_lies_before_the_first() {
    assert_eq!(at(MIN_SECS, 0).checked_sub(TimeSpan::from_secs(1)), None);
    assert_eq!(at(MIN_SECS + 1, 0).checked_sub(TimeSpan::from_secs(1)), Some(at(MIN_SECS, 0)));
}

#[test]
fn times_are_ordered_by_seconds_then_nanoseconds() {
    assert!(at(1, 5).before(at(2, 0)));
    assert!(at(1, 5).before(at(1, 6)));
    assert!(!at(1, 5).before(at(1, 5)));
    assert!(!at(2, 0).before(at(1, 999_999_999)));
}

#[test]
fn a_time_is_printed_as_the_calendar_prints_it() {
    assert_eq!(at(0, 0).text(), "1970-01-01 00:00:00 UTC");
    assert_eq!(at(1_783_846_980, 0).text(), "2026-07-12 09:03:00 UTC");
    assert_eq!(at(0, 500_000_000).text(), "1970-01-01 00:00:00.500 UTC");
}

#[test]
fn the_clock_does_not_stand_at_the_epoch() {
    let now = Timestamp::now();
    assert!(now.secs() > 1_700_000_000);
    assert!(now.nanos() < 1_000_000_000);
}
