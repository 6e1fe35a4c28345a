use zggsds::calendar::{days_in_month, is_workday, last_day_of_month, same_month, weekday_of, Date};
use zggsds::query::{month_range, parse_month};
use chrono::{Datelike, NaiveDate};

fn d(year: i32, month: u32, day: u32) -> Date {
    Date { year, month, day }
}

#[test]
fn weekdays_of_known_dates() {
    assert_eq!(weekday_of(d(1, 1, 1)), 0); // Monday
    assert_eq!(weekday_of(d(1970, 1, 1)), 3); // Thursday
    assert_eq!(weekday_of(d(2000, 2, 29)), 1); // Tuesday
    assert_eq!(weekday_of(d(2023, 12, 31)), 6); // Sunday
    assert_eq!(weekday_of(d(2024, 1, 1)), 0); // Monday
    assert_eq!(weekday_of(d(2026, 2, 14)), 5); // Saturday
    assert_eq!(weekday_of(d(0, 1, 1)), 5); // Saturday
    assert_eq!(weekday_of(d(-1, 12, 31)), 4); // Friday
}

#[test]
fn weekdays_agree_with_chrono() {
    let mut day = NaiveDate::from_ymd_opt(1899, 12, 25).unwrap();
    for _ in 0..3000 {
        let ours = weekday_of(d(day.year(), day.month(), day.day()));
        assert_eq!(ours, day.weekday().num_days_from_monday());
        day = day.succ_opt().unwrap().checked_add_days(chrono::Days::new(12)).unwrap();
    }
}

#[test]
fn workdays_are_monday_to_friday() {
    assert!(is_workday(d(2024, 1, 5))); // Friday
    assert!(!is_workday(d(2024, 1, 6))); // Saturday
    assert!(!is_workday(d(2024, 1, 7))); // Sunday
    assert!(is_workday(d(2024, 1, 8))); // Monday
}

#[test]
fn month_lengths() {
    assert_eq!(days_in_month(2024, 2), 29);
    assert_eq!(days_in_month(2023, 2), 28);
    assert_eq!(days_in_month(1900, 2), 28);
    assert_eq!(days_in_month(2000, 2), 29);
    assert_eq!(days_in_month(2024, 4), 30);
    assert_eq!(last_day_of_month(d(2026, 2, 1)), d(2026, 2, 28));
    assert_eq!(last_day_of_month(d(2024, 12, 5)), d(2024, 12, 31));
}

#[test]
fn same_month_compares_year_and_month() {
    assert!(same_month(d(2026, 2, 1), d(2026, 2, 28)));
    assert!(!same_month(d(2026, 2, 1), d(2025, 2, 1)));
    assert!(!same_month(d(2026, 2, 1), d(2026, 3, 1)));
}

#[test]
fn month_filters_parse_like_chrono() {
    assert_eq!(parse_month("2026-02"), Some(d(2026, 2, 1)));
    assert_eq!(parse_month("2026-2"), Some(d(2026, 2, 1)));
    assert_eq!(parse_month("2026-13"), None);
    assert_eq!(parse_month("February"), None);
    assert_eq!(month_range(d(2024, 2, 1)), (d(2024, 2, 1), d(2024, 2, 29)));
}
