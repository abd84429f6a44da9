//! Date-range parsing behaviour on concrete inputs.

use trade_review_backend::dates::{parse_end_date, parse_start_date, parse_yyyy_mm_dd, Date};
use trade_review_backend::models::QueryError;

#[test]
fn parses_valid_date() {
    let d = parse_yyyy_mm_dd("2024-10-24").expect("valid date");
    assert_eq!(d, Date { year: 2024, month: 10, day: 24 });
}

#[test]
fn start_bound_is_midnight_utc() {
    // 2024-10-24T00:00:00Z
    let t = parse_start_date(Some("2024-10-24")).expect("valid").expect("bound");
    assert_eq!(t, 1729728000);
    // The epoch day itself.
    let t0 = parse_start_date(Some("1970-01-01")).expect("valid").expect("bound");
    assert_eq!(t0, 0);
}

#[test]
fn end_bound_is_last_second_of_day() {
    // 2024-10-24T23:59:59Z
    let t = parse_end_date(Some("2024-10-24")).expect("valid").expect("bound");
    assert_eq!(t, 1729814399);
    let t0 = parse_end_date(Some("1970-01-01")).expect("valid").expect("bound");
    assert_eq!(t0, 86399);
}

#[test]
fn absent_bounds_stay_absent() {
    assert_eq!(parse_start_date(None).expect("ok"), None);
    assert_eq!(parse_end_date(None).expect("ok"), None);
}

#[test]
fn dates_before_epoch_are_negative() {
    let t = parse_start_date(Some("1969-12-31")).expect("valid").expect("bound");
    assert_eq!(t, -86400);
}

#[test]
fn accepts_leap_day_in_leap_years_only() {
    assert!(parse_yyyy_mm_dd("2024-02-29").is_ok());
    assert!(parse_yyyy_mm_dd("2000-02-29").is_ok());
    assert!(parse_yyyy_mm_dd("2023-02-29").is_err());
    assert!(parse_yyyy_mm_dd("1900-02-29").is_err());
}

#[test]
fn rejects_impossible_calendar_dates() {
    assert!(parse_yyyy_mm_dd("2024-02-30").is_err());
    assert!(parse_yyyy_mm_dd("2024-04-31").is_err());
    assert!(parse_yyyy_mm_dd("2024-13-01").is_err());
    assert!(parse_yyyy_mm_dd("2024-00-10").is_err());
    assert!(parse_yyyy_mm_dd("2024-01-00").is_err());
}

#[test]
fn rejects_wrong_separator_and_digit_count() {
    assert!(parse_yyyy_mm_dd("2024/10/24").is_err());
    assert!(parse_yyyy_mm_dd("10/24/2024").is_err());
    assert!(parse_yyyy_mm_dd("2024-1-05").is_err());
    assert!(parse_yyyy_mm_dd("24-10-24").is_err());
    assert!(parse_yyyy_mm_dd("2024-10-24T00:00:00").is_err());
    assert!(parse_yyyy_mm_dd("").is_err());
    assert!(parse_yyyy_mm_dd("2024-10-2a").is_err());
}

#[test]
fn invalid_date_error_names_the_input() {
    let e = parse_yyyy_mm_dd("2024.10.24").expect_err("must fail");
    match &e {
        QueryError::InvalidDate { value } => assert_eq!(value, "2024.10.24"),
        other => panic!("unexpected error {:?}", other),
    }
    let m = e.message();
    assert!(m.contains("Expected YYYY-MM-DD"));
    assert!(m.contains("2024.10.24"));
}

#[test]
fn month_lengths_follow_the_calendar() {
    // Last day of each month of a leap year parses; the day after does not.
    let lengths = [31, 29, 31, 30, 31, 30, 31, 31, 30, 31, 30, 31];
    for (i, len) in lengths.iter().enumerate() {
        let m = i + 1;
        let ok = format!("2024-{:02}-{:02}", m, len);
        assert!(parse_yyyy_mm_dd(&ok).is_ok(), "{} should parse", ok);
        if *len < 31 {
            let bad = format!("2024-{:02}-{:02}", m, len + 1);
            assert!(parse_yyyy_mm_dd(&bad).is_err(), "{} should fail", bad);
        }
    }
}
