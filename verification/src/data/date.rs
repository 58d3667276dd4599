//! Calendar dates of the proleptic Gregorian calendar.

use chrono::{Datelike, NaiveDate};
use vstd::prelude::*;

verus! {

/// The earliest year a date can have.
pub const MIN_YEAR: i32 = -262143;

/// The latest year a date can have.
pub const MAX_YEAR: i32 = 262142;

/// A calendar date: year, month (1 to 12) and day of the month (from 1).
#[derive(Debug, Clone, Copy, PartialEq, Eq, Structural)]
pub struct Date {
    pub year: i32,
    pub month: u32,
    pub day: u32,
}

/// Every fourth year is a leap year, except the centuries that 400 does not
/// divide. Year 0 and the years before it count on in the same way.
pub open spec fn is_leap_year(year: int) -> bool {
    year % 4 == 0 && (year % 100 != 0 || year % 400 == 0)
}

/// The number of days of a month of a year.
pub open spec fn days_in_month(year: int, month: int) -> int {
    if month == 2 {
        if is_leap_year(year) {
            29
        } else {
            28
        }
    } else if month == 4 || month == 6 || month == 9 || month == 11 {
        30
    } else {
        31
    }
}

/// The day exists in the calendar.
pub open spec fn is_calendar_date(year: int, month: int, day: int) -> bool {
    1 <= month <= 12 && 1 <= day <= days_in_month(year, month)
}

/// `a` is `b` or an earlier day.
pub open spec fn date_le(a: Date, b: Date) -> bool {
    a.year < b.year || (a.year == b.year && (a.month < b.month || (a.month == b.month && a.day
        <= b.day)))
}

/// The first day of a year.
pub open spec fn year_start(year: i32) -> Date {
    Date { year, month: 1, day: 1 }
}

/// The last day of a year.
pub open spec fn year_end(year: i32) -> Date {
    Date { year, month: 12, day: 31 }
}

/// The date that year, month and day make: none where the day does not exist
/// in the calendar or the year is out of range.
pub open spec fn ymd_date(year: i32, month: u32, day: u32) -> Option<Date> {
    if is_calendar_date(year as int, month as int, day as int) && MIN_YEAR <= year <= MAX_YEAR {
        Some(Date { year, month, day })
    } else {
        None
    }
}

/// Calls `chrono::NaiveDate::from_ymd_opt` and reads the year, month and day of
/// the date it made. Trusted: chrono makes a date exactly of a day that exists in
/// the calendar, in a year it can hold, and that date reads back as it was
/// written.
#[verifier::external_body]
fn naive_from_ymd(year: i32, month: u32, day: u32) -> (r: Option<Date>)
    ensures
        r == ymd_date(year, month, day),
{
    match NaiveDate::from_ymd_opt(year, month, day) {
        Some(made) => Some(Date { year: made.year(), month: made.month(), day: made.day() }),
        None => None,
    }
}

impl Date {
    /// The date is a day of the calendar, in a year between [`MIN_YEAR`] and
    /// [`MAX_YEAR`].
    pub open spec fn valid(self) -> bool {
        is_calendar_date(self.year as int, self.month as int, self.day as int) && MIN_YEAR
            <= self.year <= MAX_YEAR
    }

    /// Makes a date from year, month and day, or `None` where the day does not
    /// exist or the year is out of range.
    pub fn from_ymd_opt(year: i32, month: u32, day: u32) -> (r: Option<Date>)
        ensures
            r == ymd_date(year, month, day),
            r is Some ==> r->Some_0.valid(),
    {
        naive_from_ymd(year, month, day)
    }

    /// Tells whether this date is `other` or an earlier day.
    pub fn on_or_before(&self, other: &Date) -> (r: bool)
        ensures
            r == date_le(*self, *other),
    {
        self.year < other.year || (self.year == other.year && (self.month < other.month || (
        self.month == other.month && self.day <= other.day)))
    }
}

/// The order of dates is total: reflexive, antisymmetric, transitive, and any
/// two dates compare.
pub proof fn lemma_date_order(a: Date, b: Date, c: Date)
    ensures
        date_le(a, a),
        date_le(a, b) && date_le(b, a) ==> a == b,
        date_le(a, b) && date_le(b, c) ==> date_le(a, c),
        date_le(a, b) || date_le(b, a),
{
}

/// A day of the calendar lies between the first and the last day of its year.
pub proof fn lemma_within_year(d: Date)
    requires
        is_calendar_date(d.year as int, d.month as int, d.day as int),
    ensures
        date_le(year_start(d.year), d),
        date_le(d, year_end(d.year)),
{
}

} // verus!
