//! Calendar dates as plain year/month/day values, ordered lexicographically.

use chrono::Datelike;
use vstd::prelude::*;

verus! {

/// Leap years in the proleptic Gregorian calendar.
pub open spec fn is_leap_year(y: int) -> bool {
    y % 4 == 0 && (y % 100 != 0 || y % 400 == 0)
}

/// Number of days of month `m` (1-based) in year `y`.
pub open spec fn days_in_month(y: int, m: int) -> int {
    if m == 2 {
        if is_leap_year(y) {
            29
        } else {
            28
        }
    } else if m == 4 || m == 6 || m == 9 || m == 11 {
        30
    } else {
        31
    }
}

/// A real calendar date: month in range and day within the month's length.
pub open spec fn valid_ymd(y: int, m: int, d: int) -> bool {
    &&& 1 <= m <= 12
    &&& 1 <= d <= days_in_month(y, m)
}

/// A decimal digit.
pub open spec fn is_digit(c: char) -> bool {
    '0' <= c && c <= '9'
}

/// Numeric value of a decimal digit.
pub open spec fn digit_val(c: char) -> int {
    c as int - '0' as int
}

/// Year encoded by the first four characters of a `YYYY-MM-DD` string.
pub open spec fn year_of_str(s: Seq<char>) -> int {
    digit_val(s[0]) * 1000 + digit_val(s[1]) * 100 + digit_val(s[2]) * 10 + digit_val(s[3])
}

/// Month encoded by a `YYYY-MM-DD` string.
pub open spec fn month_of_str(s: Seq<char>) -> int {
    digit_val(s[5]) * 10 + digit_val(s[6])
}

/// Day encoded by a `YYYY-MM-DD` string.
pub open spec fn day_of_str(s: Seq<char>) -> int {
    digit_val(s[8]) * 10 + digit_val(s[9])
}

/// The date a valid `YYYY-MM-DD` string encodes.
pub open spec fn date_of_str(s: Seq<char>) -> Date {
    Date {
        year: year_of_str(s) as u32,
        month: month_of_str(s) as u32,
        day: day_of_str(s) as u32,
    }
}

/// Exactly ten characters in `YYYY-MM-DD` shape, naming a real calendar date.
pub open spec fn valid_date_str(s: Seq<char>) -> bool {
    &&& s.len() == 10
    &&& is_digit(s[0]) && is_digit(s[1]) && is_digit(s[2]) && is_digit(s[3])
    &&& s[4] == '-'
    &&& is_digit(s[5]) && is_digit(s[6])
    &&& s[7] == '-'
    &&& is_digit(s[8]) && is_digit(s[9])
    &&& valid_ymd(year_of_str(s), month_of_str(s), day_of_str(s))
}

/// The given text is not a date in `YYYY-MM-DD` form.
#[derive(Debug, Clone, Copy, PartialEq, Eq, Structural)]
pub struct InvalidDate;

/// A calendar date without a time component.
#[derive(Debug, Clone, Copy, PartialEq, Eq, Structural, PartialOrd, Ord, Hash)]
pub struct Date {
    pub year: u32,
    pub month: u32,
    pub day: u32,
}

/// Chronological order on dates: year first, then month, then day.
pub open spec fn date_le(a: Date, b: Date) -> bool {
    if a.year != b.year {
        a.year < b.year
    } else if a.month != b.month {
        a.month < b.month
    } else {
        a.day <= b.day
    }
}

/// Relies on chrono's `Local::now` and `NaiveDate`'s calendar accessors:
/// a `NaiveDate` is a real calendar date, with the month in `1..=12` and the
/// day within the month.  Which date comes back depends on the clock, so
/// nothing beyond validity is stated.
#[verifier::external_body]
fn today_ymd() -> (r: (i32, u32, u32))
    ensures
        valid_ymd(r.0 as int, r.1 as int, r.2 as int),
{
    let d = chrono::Local::now().date_naive();
    (d.year(), d.month(), d.day())
}

impl Date {
    /// The fields form a real calendar date.
    pub open spec fn wf(&self) -> bool {
        valid_ymd(self.year as int, self.month as int, self.day as int)
    }

    /// The invoking system's current local calendar date.  A pre-epoch
    /// year is clamped to year 0, which is a leap year, so the day stays
    /// valid.
    pub fn now() -> (r: Date)
        ensures
            r.wf(),
    {
        let (y, m, d) = today_ymd();
        let year: u32 = if y < 0 {
            proof {
                assert(days_in_month(0, m as int) >= days_in_month(y as int, m as int));
            }
            0
        } else {
            y as u32
        };
        Date { year, month: m, day: d }
    }

    /// Builds the date with the given year, month and day, which must form a
    /// real calendar date.
    pub fn from_ymd(year: u32, month: u32, day: u32) -> (r: Date)
        requires
            valid_ymd(year as int, month as int, day as int),
        ensures
            r == (Date { year, month, day }),
            r.wf(),
    {
        Date { year, month, day }
    }

    /// Chronological comparison, usable from verified code.
    pub fn le(&self, other: &Date) -> (r: bool)
        ensures
            r == date_le(*self, *other),
    {
        if self.year != other.year {
            self.year < other.year
        } else if self.month != other.month {
            self.month < other.month
        } else {
            self.day <= other.day
        }
    }

    /// Parses a date string in `YYYY-MM-DD` form, rejecting any other shape
    /// and any triple that is not a real calendar date.
    pub fn from_str(s: &str) -> (r: Result<Date, InvalidDate>)
        ensures
            r is Ok <==> valid_date_str(s@),
            r is Ok ==> r->Ok_0 == date_of_str(s@) && r->Ok_0.wf(),
    {
        let n = s.unicode_len();
        if n != 10 {
            return Err(InvalidDate);
        }
        if s.get_char(4) != '-' || s.get_char(7) != '-' {
            return Err(InvalidDate);
        }
        let d0 = match digit_of(s.get_char(0)) {
            Some(v) => v,
            None => return Err(InvalidDate),
        };
        let d1 = match digit_of(s.get_char(1)) {
            Some(v) => v,
            None => return Err(InvalidDate),
        };
        let d2 = match digit_of(s.get_char(2)) {
            Some(v) => v,
            None => return Err(InvalidDate),
        };
        let d3 = match digit_of(s.get_char(3)) {
            Some(v) => v,
            None => return Err(InvalidDate),
        };
        let d5 = match digit_of(s.get_char(5)) {
            Some(v) => v,
            None => return Err(InvalidDate),
        };
        let d6 = match digit_of(s.get_char(6)) {
            Some(v) => v,
            None => return Err(InvalidDate),
        };
        let d8 = match digit_of(s.get_char(8)) {
            Some(v) => v,
            None => return Err(InvalidDate),
        };
        let d9 = match digit_of(s.get_char(9)) {
            Some(v) => v,
            None => return Err(InvalidDate),
        };
        let year = d0 * 1000 + d1 * 100 + d2 * 10 + d3;
        let month = d5 * 10 + d6;
        let day = d8 * 10 + d9;
        if month < 1 || month > 12 {
            return Err(InvalidDate);
        }
        if day < 1 || day > month_days(year, month) {
            return Err(InvalidDate);
        }
        Ok(Date { year, month, day })
    }
}

/// Numeric value of a decimal digit character, `None` for any other character.
fn digit_of(c: char) -> (r: Option<u32>)
    ensures
        r is Some <==> is_digit(c),
        r is Some ==> r->0 == digit_val(c),
{
    let v = c as u32;
    if v >= 48 && v <= 57 {
        Some(v - 48)
    } else {
        None
    }
}

/// Executable counterpart of `is_leap_year`.
fn leap_year(y: u32) -> (r: bool)
    ensures
        r == is_leap_year(y as int),
{
    y % 4 == 0 && (y % 100 != 0 || y % 400 == 0)
}

/// Executable counterpart of `days_in_month`.
fn month_days(y: u32, m: u32) -> (r: u32)
    requires
        1 <= m <= 12,
    ensures
        r == days_in_month(y as int, m as int),
{
    if m == 2 {
        if leap_year(y) {
            29
        } else {
            28
        }
    } else if m == 4 || m == 6 || m == 9 || m == 11 {
        30
    } else {
        31
    }
}

} // verus!
