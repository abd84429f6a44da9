//! Date-range parsing: `YYYY-MM-DD` strings become inclusive UTC
//! epoch-second boundaries (start of day, end of day).
//!
//! The calendar is the proleptic Gregorian calendar; day counts are stated
//! as sums of year and month lengths from 1970-01-01.

use vstd::prelude::*;
use vstd::math::abs;
use vstd::string::StrSliceExecFns;
use crate::models::QueryError;

verus! {

/// A Gregorian leap year: divisible by 4 and not by 100, or divisible by 400.
pub open spec fn is_leap_year(y: int) -> bool {
    (y % 4 == 0 && y % 100 != 0) || y % 400 == 0
}

/// Number of days in year `y`.
pub open spec fn days_in_year(y: int) -> int {
    if is_leap_year(y) {
        366
    } else {
        365
    }
}

/// Number of days in month `m` of year `y` (`m` between 1 and 12).
pub open spec fn days_in_month(y: int, m: int) -> int {
    if m == 2 {
        if is_leap_year(y) {
            29
        } else {
            28
        }
    } else if m == 4 || m == 6 || m == 9 || m == 11 {
        30
    } else {
        31
    }
}

/// Days from the start of year `y` to the start of its month `m`.
pub open spec fn days_before_month(y: int, m: int) -> int
    decreases m,
{
    if m <= 1 {
        0
    } else {
        days_before_month(y, m - 1) + days_in_month(y, m - 1)
    }
}

/// Days from 1970-01-01 to the start of year `y` (negative before 1970).
pub open spec fn days_before_year(y: int) -> int
    decreases abs(y - 1970),
{
    if y == 1970 {
        0
    } else if y > 1970 {
        days_before_year(y - 1) + days_in_year(y - 1)
    } else {
        days_before_year(y + 1) - days_in_year(y)
    }
}

/// Day number of the calendar date `y-m-d`, counted from 1970-01-01.
pub open spec fn epoch_days(y: int, m: int, d: int) -> int {
    days_before_year(y) + days_before_month(y, m) + (d - 1)
}

/// A real calendar date with a four-digit year.
pub open spec fn valid_date(y: int, m: int, d: int) -> bool {
    0 <= y <= 9999 && 1 <= m <= 12 && 1 <= d <= days_in_month(y, m)
}

/// A calendar date, validated on construction.
#[derive(Clone, Copy, Debug, PartialEq, Eq, Structural)]
pub struct Date {
    /// Four-digit year.
    pub year: u16,
    /// Month, 1 through 12.
    pub month: u8,
    /// Day of month, 1 through the month's length.
    pub day: u8,
}

impl Date {
    /// The date names a real day of the calendar.
    pub open spec fn wf(self) -> bool {
        valid_date(self.year as int, self.month as int, self.day as int)
    }
}

/// A decimal digit character.
pub open spec fn is_digit(c: char) -> bool {
    48 <= c as u32 <= 57
}

/// Numeric value of a decimal digit character.
pub open spec fn digit_value(c: char) -> int {
    c as u32 - 48
}

/// The characters follow the literal `YYYY-MM-DD` pattern.
pub open spec fn date_shape_ok(s: Seq<char>) -> bool {
    &&& s.len() == 10
    &&& is_digit(s[0])
    &&& is_digit(s[1])
    &&& is_digit(s[2])
    &&& is_digit(s[3])
    &&& s[4] == '-'
    &&& is_digit(s[5])
    &&& is_digit(s[6])
    &&& s[7] == '-'
    &&& is_digit(s[8])
    &&& is_digit(s[9])
}

/// Year named by a well-shaped date string.
pub open spec fn year_of(s: Seq<char>) -> int {
    digit_value(s[0]) * 1000 + digit_value(s[1]) * 100 + digit_value(s[2]) * 10 + digit_value(
        s[3],
    )
}

/// Month named by a well-shaped date string.
pub open spec fn month_of(s: Seq<char>) -> int {
    digit_value(s[5]) * 10 + digit_value(s[6])
}

/// Day of month named by a well-shaped date string.
pub open spec fn day_of(s: Seq<char>) -> int {
    digit_value(s[8]) * 10 + digit_value(s[9])
}

/// The calendar date a string names: `Some` exactly when the string matches
/// `YYYY-MM-DD` and names a real day.
pub open spec fn spec_parse_date(s: Seq<char>) -> Option<(int, int, int)> {
    if date_shape_ok(s) && valid_date(year_of(s), month_of(s), day_of(s)) {
        Some((year_of(s), month_of(s), day_of(s)))
    } else {
        None
    }
}

/// Number of days in a month, as executable code.
pub fn month_length(year: u16, month: u8) -> (r: u8)
    requires
        1 <= month <= 12,
    ensures
        r as int == days_in_month(year as int, month as int),
{
    if month == 2 {
        if (year % 4 == 0 && year % 100 != 0) || year % 400 == 0 {
            29
        } else {
            28
        }
    } else if month == 4 || month == 6 || month == 9 || month == 11 {
        30
    } else {
        31
    }
}

/// Number of days in a year, as executable code.
pub fn year_length(year: u16) -> (r: u16)
    ensures
        r as int == days_in_year(year as int),
{
    if (year % 4 == 0 && year % 100 != 0) || year % 400 == 0 {
        366
    } else {
        365
    }
}

/// Parses a `YYYY-MM-DD` string into a calendar date, rejecting malformed
/// text and impossible dates such as a thirtieth of February.
pub fn parse_yyyy_mm_dd(value: &str) -> (r: Result<Date, QueryError>)
    ensures
        match r {
            Ok(d) => spec_parse_date(value@) == Some(
                (d.year as int, d.month as int, d.day as int),
            ) && d.wf(),
            Err(e) => {
                &&& spec_parse_date(value@) is None
                &&& e matches QueryError::InvalidDate { value: v } && v@ == value@
            },
        },
{
    if value.unicode_len() != 10 {
        return Err(QueryError::InvalidDate { value: value.to_owned() });
    }
    let c0 = value.get_char(0);
    let c1 = value.get_char(1);
    let c2 = value.get_char(2);
    let c3 = value.get_char(3);
    let c4 = value.get_char(4);
    let c5 = value.get_char(5);
    let c6 = value.get_char(6);
    let c7 = value.get_char(7);
    let c8 = value.get_char(8);
    let c9 = value.get_char(9);
    if c4 != '-' || c7 != '-' {
        return Err(QueryError::InvalidDate { value: value.to_owned() });
    }
    let d0 = c0 as u32;
    let d1 = c1 as u32;
    let d2 = c2 as u32;
    let d3 = c3 as u32;
    let d5 = c5 as u32;
    let d6 = c6 as u32;
    let d8 = c8 as u32;
    let d9 = c9 as u32;
    if d0 < 48 || d0 > 57 || d1 < 48 || d1 > 57 || d2 < 48 || d2 > 57 || d3 < 48 || d3 > 57 {
        return Err(QueryError::InvalidDate { value: value.to_owned() });
    }
    if d5 < 48 || d5 > 57 || d6 < 48 || d6 > 57 || d8 < 48 || d8 > 57 || d9 < 48 || d9 > 57 {
        return Err(QueryError::InvalidDate { value: value.to_owned() });
    }
    let year: u32 = (d0 - 48) * 1000 + (d1 - 48) * 100 + (d2 - 48) * 10 + (d3 - 48);
    let month: u32 = (d5 - 48) * 10 + (d6 - 48);
    let day: u32 = (d8 - 48) * 10 + (d9 - 48);
    if month < 1 || month > 12 {
        return Err(QueryError::InvalidDate { value: value.to_owned() });
    }
    let limit = month_length(year as u16, month as u8);
    if day < 1 || day > limit as u32 {
        return Err(QueryError::InvalidDate { value: value.to_owned() });
    }
    Ok(Date { year: year as u16, month: month as u8, day: day as u8 })
}

/// Days since 1970-01-01 for a valid calendar date (negative before 1970).
///
/// The result is also bounded, so that second and millisecond scalings
/// stay well inside `i64`.
pub fn date_to_epoch_days(date: &Date) -> (r: i64)
    requires
        date.wf(),
    ensures
        r as int == epoch_days(date.year as int, date.month as int, date.day as int),
        -800000 <= r <= 3700000,
{
    let mut days: i64 = 0;
    if date.year >= 1970 {
        let mut y: u16 = 1970;
        while y < date.year
            invariant
                1970 <= y <= date.year,
                date.year <= 9999,
                days as int == days_before_year(y as int),
                0 <= days <= 366 * (y as int - 1970),
            decreases date.year as int - y as int,
        {
            days = days + year_length(y) as i64;
            y = y + 1;
        }
    } else {
        let mut y: u16 = 1970;
        while y > date.year
            invariant
                date.year <= y <= 1970,
                days as int == days_before_year(y as int),
                -366 * (1970 - y as int) <= days <= 0,
            decreases y as int,
        {
            y = y - 1;
            days = days - year_length(y) as i64;
        }
    }
    let mut m: u8 = 1;
    while m < date.month
        invariant
            1 <= m <= date.month,
            date.wf(),
            days as int == days_before_year(date.year as int) + days_before_month(
                date.year as int,
                m as int,
            ),
            -800000 <= days <= 3650000 + 31 * (m as int - 1),
        decreases date.month as int - m as int,
    {
        days = days + month_length(date.year, m) as i64;
        m = m + 1;
    }
    days + date.day as i64 - 1
}

/// First UTC second of the day a valid date string names, or `None`.
pub open spec fn spec_day_start(s: Seq<char>) -> Option<int> {
    match spec_parse_date(s) {
        Some((y, m, d)) => Some(86400 * epoch_days(y, m, d)),
        None => None,
    }
}

/// Last UTC second of the day a valid date string names, or `None`.
pub open spec fn spec_day_end(s: Seq<char>) -> Option<int> {
    match spec_parse_date(s) {
        Some((y, m, d)) => Some(86400 * epoch_days(y, m, d) + 86399),
        None => None,
    }
}

/// Converts an optional date string into the first UTC second included in
/// the requested range: `00:00:00` on that calendar day.
pub fn parse_start_date(value: Option<&str>) -> (r: Result<Option<i64>, QueryError>)
    ensures
        value is None ==> r == Ok::<Option<i64>, QueryError>(None),
        value matches Some(s) ==> match r {
            Ok(bound) => bound matches Some(t) && spec_day_start(s@) == Some(t as int),
            Err(e) => {
                &&& spec_day_start(s@) is None
                &&& e matches QueryError::InvalidDate { value: v } && v@ == s@
            },
        },
        match r {
            Ok(b) => b matches Some(t) ==> -70000000000 <= t && t <= 320000000000,
            Err(_) => true,
        },
{
    match value {
        None => Ok(None),
        Some(s) => {
            let date = parse_yyyy_mm_dd(s)?;
            Ok(Some(date_to_epoch_days(&date) * 86400))
        },
    }
}

/// Converts an optional date string into the final UTC second included in
/// the requested range: `23:59:59` on that calendar day.
pub fn parse_end_date(value: Option<&str>) -> (r: Result<Option<i64>, QueryError>)
    ensures
        value is None ==> r == Ok::<Option<i64>, QueryError>(None),
        value matches Some(s) ==> match r {
            Ok(bound) => bound matches Some(t) && spec_day_end(s@) == Some(t as int),
            Err(e) => {
                &&& spec_day_end(s@) is None
                &&& e matches QueryError::InvalidDate { value: v } && v@ == s@
            },
        },
        match r {
            Ok(b) => b matches Some(t) ==> -70000000000 <= t && t <= 320000000000,
            Err(_) => true,
        },
{
    match value {
        None => Ok(None),
        Some(s) => {
            let date = parse_yyyy_mm_dd(s)?;
            Ok(Some(date_to_epoch_days(&date) * 86400 + 86399))
        },
    }
}

} // verus!
