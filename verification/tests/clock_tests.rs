use chrono::{NaiveTime, Timelike};
use schedule_watch::classify::{classify, classify_with_due, Classification};
use schedule_watch::clock::{parse_time_of_day, TimeOfDay};

fn at(h: u32, m: u32, s: u32) -> TimeOfDay {
    TimeOfDay::from_hms(h, m, s).unwrap()
}

#[test]
fn a_time_of_day_is_made_of_valid_parts_only() {
    assert_eq!(TimeOfDay::from_hms(9, 0, 0), Some(TimeOfDay { secs: 32400, frac: 0 }));
    assert_eq!(TimeOfDay::from_hms(23, 59, 59), Some(TimeOfDay { secs: 86399, frac: 0 }));
    assert_eq!(TimeOfDay::from_hms(24, 0, 0), None);
    assert_eq!(TimeOfDay::from_hms(0, 60, 0), None);
    assert_eq!(TimeOfDay::from_hms(0, 0, 60), None);
    assert_eq!(TimeOfDay::new(86399, 1_999_999_999), Some(TimeOfDay { secs: 86399, frac: 1_999_999_999 }));
    assert_eq!(TimeOfDay::new(86400, 0), None);
    assert_eq!(TimeOfDay::new(0, 2_000_000_000), None);
    assert_eq!(TimeOfDay::new(58, 1_000_000_000), None);
    assert_eq!(TimeOfDay::new(59, 1_000_000_000), Some(TimeOfDay { secs: 59, frac: 1_000_000_000 }));
}

#[test]
fn a_clock_text_is_read_as_hours_minutes_seconds() {
    assert_eq!(parse_time_of_day("09:00:00"), Some(at(9, 0, 0)));
    assert_eq!(parse_time_of_day("23:59:59"), Some(at(23, 59, 59)));
    assert_eq!(parse_time_of_day("9:5:3"), Some(at(9, 5, 3)));
    assert_eq!(parse_time_of_day("23:59:60"), Some(TimeOfDay { secs: 86399, frac: 1_000_000_000 }));
    assert_eq!(parse_time_of_day("24:00:00"), None);
    assert_eq!(parse_time_of_day("12:60:00"), None);
    assert_eq!(parse_time_of_day("12:00"), None);
    assert_eq!(parse_time_of_day("noon"), None);
    assert_eq!(parse_time_of_day(""), None);
    assert_eq!(parse_time_of_day("1080012:00:00"), None);
}

#[test]
fn earlier_and_elapsed_agree_with_chrono() {
    let samples = [
        (0u32, 0u32),
        (1, 0),
        (59, 1_000_000_000),
        (59, 1_500_000_000),
        (60, 0),
        (32400, 0),
        (32940, 0),
        (32940, 999_999_999),
        (86399, 0),
        (86399, 1_999_999_999),
    ];
    for (s1, f1) in samples {
        for (s2, f2) in samples {
            let a = TimeOfDay::new(s1, f1).unwrap();
            let b = TimeOfDay::new(s2, f2).unwrap();
            let x = NaiveTime::from_num_seconds_from_midnight_opt(s1, f1).unwrap();
            let y = NaiveTime::from_num_seconds_from_midnight_opt(s2, f2).unwrap();
            assert_eq!(x.num_seconds_from_midnight(), s1);
            assert_eq!(a.is_before(&b), x < y);
            assert_eq!(Some(a.elapsed_nanos_since(&b)), (x - y).num_nanoseconds());
        }
    }
}

#[test]
fn a_completed_row_is_never_due() {
    let now = at(23, 0, 0);
    let r = classify(Some("2024-01-01"), Some("09:00:00"), true, "2024-01-01", &now);
    assert_eq!(r, Classification::NotDue);
    let r = classify(Some("2024-01-01"), None, true, "2024-01-01", &now);
    assert_eq!(r, Classification::NotDue);
    let r = classify(Some("2024-01-01"), Some("bad"), true, "2024-01-01", &now);
    assert_eq!(r, Classification::NotDue);
    let r = classify(None, None, true, "2024-01-01", &now);
    assert_eq!(r, Classification::NotDue);
}

#[test]
fn a_row_of_another_day_is_never_due() {
    let now = at(23, 0, 0);
    let r = classify(Some("2023-12-31"), Some("09:00:00"), false, "2024-01-01", &now);
    assert_eq!(r, Classification::NotDue);
    let r = classify(Some("2024-01-02"), Some("bad"), false, "2024-01-01", &now);
    assert_eq!(r, Classification::NotDue);
    let r = classify(None, Some("09:00:00"), false, "2024-01-01", &now);
    assert_eq!(r, Classification::NotDue);
    let r = classify(Some("2024-1-1"), Some("09:00:00"), false, "2024-01-01", &now);
    assert_eq!(r, Classification::NotDue);
}

#[test]
fn the_grace_period_ends_nine_minutes_after_the_due_time() {
    let missing = Classification::Missing(String::from("2024-01-01 09:00:00"));
    let row = |now: TimeOfDay| classify(Some("2024-01-01"), Some("09:00:00"), false, "2024-01-01", &now);
    assert_eq!(row(at(9, 8, 59)), Classification::NotDue);
    assert_eq!(row(at(9, 9, 0)), missing);
    assert_eq!(row(at(9, 9, 1)), missing);
    assert_eq!(row(at(23, 59, 59)), missing);
    assert_eq!(row(TimeOfDay::new(32939, 999_999_999).unwrap()), Classification::NotDue);
    assert_eq!(row(TimeOfDay::new(32940, 1).unwrap()), missing);
}

#[test]
fn a_row_not_yet_past_is_not_due() {
    let row = |now: TimeOfDay| classify(Some("2024-01-01"), Some("09:00:00"), false, "2024-01-01", &now);
    assert_eq!(row(at(8, 0, 0)), Classification::NotDue);
    assert_eq!(row(at(9, 0, 0)), Classification::NotDue);
    assert_eq!(row(at(9, 0, 1)), Classification::NotDue);
    assert_eq!(row(at(0, 0, 0)), Classification::NotDue);
}

#[test]
fn a_row_without_a_readable_time_is_skipped() {
    let now = at(12, 0, 0);
    let r = classify(Some("2024-01-01"), None, false, "2024-01-01", &now);
    assert_eq!(r, Classification::Skipped);
    let r = classify(Some("2024-01-01"), Some("nine"), false, "2024-01-01", &now);
    assert_eq!(r, Classification::Skipped);
    let r = classify(Some("2024-01-01"), Some("25:00:00"), false, "2024-01-01", &now);
    assert_eq!(r, Classification::Skipped);
    let r = classify(Some("2024-01-01"), Some(""), false, "2024-01-01", &now);
    assert_eq!(r, Classification::Skipped);
}

#[test]
fn the_entry_keeps_the_time_text_as_written() {
    let now = at(12, 0, 0);
    let r = classify(Some("2024-01-01"), Some("9:5:3"), false, "2024-01-01", &now);
    assert_eq!(r, Classification::Missing(String::from("2024-01-01 9:5:3")));
}

#[test]
fn a_given_reading_decides_without_the_text() {
    let now = at(12, 0, 0);
    let due = Some(at(11, 51, 0));
    let r = classify_with_due(Some("d"), Some("whatever"), false, "d", &now, due);
    assert_eq!(r, Classification::Missing(String::from("d whatever")));
    let r = classify_with_due(Some("d"), Some("whatever"), false, "d", &now, Some(at(11, 51, 1)));
    assert_eq!(r, Classification::NotDue);
    let r = classify_with_due(Some("d"), Some("whatever"), false, "d", &now, None);
    assert_eq!(r, Classification::Skipped);
    let r = classify_with_due(Some("d"), None, false, "d", &now, due);
    assert_eq!(r, Classification::Skipped);
    let r = classify_with_due(Some("e"), Some("whatever"), false, "d", &now, due);
    assert_eq!(r, Classification::NotDue);
    let r = classify_with_due(Some("d"), Some("whatever"), true, "d", &now, due);
    assert_eq!(r, Classification::NotDue);
}
