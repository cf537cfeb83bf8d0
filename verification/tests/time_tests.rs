use chrono::{DateTime, Utc};
use ebay_marketing_lib::time::{
    plus_days_from, utc_now, DateError, Elapsed, OffsetTime, UtcTime, FIRST_SECOND, LAST_SECOND,
    LONGEST_SPAN, YEAR_9999_END, YEAR_ZERO,
};
use ebay_marketing_lib::{parse_rfc3339, plus_days};

fn at(secs: i64) -> UtcTime {
    UtcTime { secs, nanos: 0 }
}

#[test]
fn calendar_is_that_of_chrono() {
    assert_eq!(DateTime::<Utc>::MIN_UTC.timestamp(), FIRST_SECOND);
    assert_eq!(DateTime::<Utc>::MAX_UTC.timestamp(), LAST_SECOND);
    assert_eq!(parse_rfc3339("0000-01-01T00:00:00Z"), Some(at(YEAR_ZERO)));
    assert_eq!(parse_rfc3339("9999-12-31T23:59:59Z"), Some(at(YEAR_9999_END)));
    assert!(DateTime::from_timestamp(FIRST_SECOND - 1, 0).is_none());
    assert!(DateTime::from_timestamp(LAST_SECOND + 1, 0).is_none());
    assert!(chrono::TimeDelta::try_seconds(LONGEST_SPAN).is_some());
    assert!(chrono::TimeDelta::try_seconds(LONGEST_SPAN + 1).is_none());
    assert!(chrono::TimeDelta::try_seconds(-LONGEST_SPAN).is_some());
    assert!(chrono::TimeDelta::try_seconds(-LONGEST_SPAN - 1).is_none());
}

#[test]
fn rfc3339_dates_are_read_in_utc() {
    assert_eq!(parse_rfc3339("1970-01-01T00:00:00Z"), Some(at(0)));
    assert_eq!(parse_rfc3339("2024-01-01T00:00:00Z"), Some(at(1_704_067_200)));
    assert_eq!(parse_rfc3339("2024-01-01T02:00:00+02:00"), Some(at(1_704_067_200)));
    assert_eq!(
        parse_rfc3339("2024-01-01T00:00:00.25Z"),
        Some(UtcTime { secs: 1_704_067_200, nanos: 250_000_000 })
    );
    assert_eq!(
        parse_rfc3339("2016-12-31T23:59:60Z"),
        Some(UtcTime { secs: 1_483_228_799, nanos: 1_000_000_000 })
    );
}

#[test]
fn other_texts_are_no_dates() {
    assert_eq!(parse_rfc3339(""), None);
    assert_eq!(parse_rfc3339("2024-01-01"), None);
    assert_eq!(parse_rfc3339("2024-02-30T00:00:00Z"), None);
    assert_eq!(parse_rfc3339("2024-01-01T00:00:00"), None);
    assert_eq!(parse_rfc3339("soon"), None);
}

#[test]
fn dates_are_written_in_utc() {
    assert_eq!(at(1_704_067_200).to_rfc3339(), "2024-01-01T00:00:00+00:00");
    let fraction = UtcTime { secs: 1_704_067_200, nanos: 250_000_000 };
    assert_eq!(fraction.to_rfc3339(), "2024-01-01T00:00:00.250+00:00");
    assert_eq!(fraction.to_rfc3339_seconds(), "2024-01-01T00:00:00Z");
}

#[test]
fn written_dates_read_back() {
    let leap = UtcTime { secs: 1_483_228_799, nanos: 1_500_000_000 };
    for t in [at(0), at(YEAR_ZERO), at(YEAR_9999_END), leap] {
        assert_eq!(parse_rfc3339(&t.to_rfc3339()), Some(t));
    }
    assert_eq!(parse_rfc3339(&at(YEAR_9999_END + 1).to_rfc3339()), None);
}

#[test]
fn points_move_by_seconds() {
    assert_eq!(at(100).moved(50), at(150));
    assert_eq!(at(100).moved(-150), at(-50));
    assert!(at(100).is_before(&at(100).moved(1)));
    let leap = UtcTime { secs: 1_483_228_799, nanos: 1_500_000_000 };
    let half = 500_000_000;
    assert_eq!(leap.moved(0), leap);
    assert_eq!(leap.moved(86_400), UtcTime { secs: 1_483_315_199, nanos: half });
    assert_eq!(leap.moved(-86_400), UtcTime { secs: 1_483_142_400, nanos: half });
}

#[test]
fn points_stay_in_the_calendar() {
    assert!(at(LAST_SECOND - 10).can_move(10));
    assert!(!at(LAST_SECOND - 10).can_move(11));
    assert!(at(FIRST_SECOND + 10).can_move(-10));
    assert!(!at(FIRST_SECOND + 10).can_move(-11));
    assert!(!at(0).can_move(i64::MAX));
    assert!(!at(0).can_move(i64::MIN));
    assert_eq!(at(LAST_SECOND - 10).moved(10), at(LAST_SECOND));
}

#[test]
fn spans_are_rounded_towards_zero() {
    let span = at(90_061).since(&at(0));
    assert_eq!(span, Elapsed { days: 1, hours: 25, minutes: 1_501 });
    let back = at(0).since(&at(90_061));
    assert_eq!(back, Elapsed { days: -1, hours: -25, minutes: -1_501 });
    let short = UtcTime { secs: 59, nanos: 999_999_999 }.since(&at(0));
    assert_eq!(short, Elapsed { days: 0, hours: 0, minutes: 0 });
    let negative = at(-60).since(&UtcTime { secs: 0, nanos: 1 });
    assert_eq!(negative.minutes, -1);
    let less = UtcTime { secs: -60, nanos: 1 }.since(&at(0));
    assert_eq!(less.minutes, 0);
}

#[test]
fn leap_second_counts_towards_later_times_of_day() {
    let leap = UtcTime { secs: 59, nanos: 1_000_000_000 };
    assert_eq!(at(119).since(&leap).minutes, 1);
    assert_eq!(at(118).since(&leap).minutes, 0);
    assert_eq!(leap.since(&at(119)).minutes, -1);
}

#[test]
fn points_are_ordered() {
    let half = UtcTime { secs: 5, nanos: 500_000_000 };
    assert!(at(5).is_before(&half));
    assert!(half.is_before(&at(6)));
    assert!(!half.is_before(&half));
    assert!(!at(6).is_before(&at(5)));
}

#[test]
fn clock_shows_the_current_time() {
    let before = Utc::now().timestamp();
    let now = utc_now();
    let after = Utc::now().timestamp();
    assert!(before <= now.secs && now.secs <= after);
    assert!(now.nanos < 1_000_000_000);
}

#[test]
fn dates_move_by_days_at_their_offset() {
    assert_eq!(
        plus_days("2024-01-01T00:00:00-08:00", 14),
        Ok("2024-01-15T00:00:00-08:00".to_string())
    );
    assert_eq!(
        plus_days("2024-03-01T12:30:00Z", -1),
        Ok("2024-02-29T12:30:00+00:00".to_string())
    );
    let t = OffsetTime { utc: at(0), offset: 3_600 };
    assert_eq!(plus_days_from(t, 1), "1970-01-02T01:00:00+01:00");
}

#[test]
fn dates_that_cannot_be_moved_are_reported() {
    assert_eq!(plus_days("tomorrow", 1), Err(DateError::Unreadable));
    assert_eq!(plus_days("2024-01-01T00:00:00Z", i64::MAX), Err(DateError::OutOfRange));
    assert_eq!(plus_days("2024-01-01T00:00:00Z", i64::MIN), Err(DateError::OutOfRange));
    assert_eq!(plus_days("2024-01-01T00:00:00Z", 100_000_000), Err(DateError::OutOfRange));
}

#[test]
fn moves_add_up() {
    let t = UtcTime { secs: 1_704_067_200, nanos: 7 };
    assert_eq!(t.moved(86_400).moved(-3_600), t.moved(82_800));
    assert_eq!(t.moved(5).moved(-5), t);
}

#[test]
fn moved_dates_move_on() {
    let once = plus_days("2024-01-01T00:00:00-08:00", 14).unwrap();
    assert_eq!(plus_days(&once, 14), plus_days("2024-01-01T00:00:00-08:00", 28));
}
