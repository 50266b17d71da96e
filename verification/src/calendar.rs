//! The proleptic Gregorian calendar, as far as a month grid needs it.
//!
//! The spec functions define the calendar on mathematical integers: which
//! years are leap years, how long a month is, and on which weekday it starts.
//!
//! The two executable functions at the end ask the `time` crate. Verus does
//! not read that crate, so their contracts are believed, not proved: they say
//! that `time` answers as the spec functions define. Both are only asked
//! about the months of the years 1 to 9999, and the tests compare their
//! answers with the definitions on every one of those months.
use vstd::prelude::*;

verus! {

/// The first year a month can belong to.
pub const MIN_YEAR: i32 = 1;

/// The last year a month can belong to.
pub const MAX_YEAR: i32 = 9999;

/// Every fourth year is a leap year, except the centuries that 400 does not
/// divide.
pub open spec fn is_leap_year(year: int) -> bool {
    year % 4 == 0 && (year % 100 != 0 || year % 400 == 0)
}

/// The number of days of a year.
pub open spec fn days_in_year(year: int) -> int {
    if is_leap_year(year) {
        366
    } else {
        365
    }
}

/// The number of days of month `month` (1 for January) in `year`.
pub open spec fn days_in_month(year: int, month: int) -> int {
    if month == 2 {
        if is_leap_year(year) {
            29
        } else {
            28
        }
    } else if month == 4 || month == 6 || month == 9 || month == 11 {
        30
    } else {
        31
    }
}

/// The number of days from 1 January of year 1 up to, and without, 1 January
/// of `year`.
pub open spec fn days_before_year(year: int) -> int {
    let y = year - 1;
    365 * y + y / 4 - y / 100 + y / 400
}

/// The number of days from 1 January of `year` up to, and without, the first
/// of `month`.
pub open spec fn days_before_month(year: int, month: int) -> int
    decreases month,
{
    if month <= 1 {
        0
    } else {
        days_before_month(year, month - 1) + days_in_month(year, month - 1)
    }
}

/// The weekday of the first of `month` in `year`, counted in days from Sunday:
/// 0 for Sunday, 6 for Saturday. 1 January of year 1 is a Monday, and each day
/// later moves the weekday on by one.
pub open spec fn first_weekday_index(year: int, month: int) -> int {
    (1 + days_before_year(year) + days_before_month(year, month)) % 7
}

/// Whether `year` and `month` name a month of the calendar that this library
/// covers.
pub open spec fn in_range(year: int, month: int) -> bool {
    MIN_YEAR <= year <= MAX_YEAR && 1 <= month <= 12
}

/// The length of a month, from `time::Month::length`.
///
/// Trusted: that `time` counts the days of a month as the Gregorian calendar
/// does, which is what [`days_in_month`] writes down.
#[verifier::external_body]
pub(crate) fn month_length(year: i32, month: u8) -> (days: u8)
    requires
        in_range(year as int, month as int),
    ensures
        days == days_in_month(year as int, month as int),
{
    time::Month::try_from(month).expect("month number within 1..=12").length(year)
}

/// The weekday of the first of a month in days from Sunday, from
/// `time::Date::from_calendar_date`, `time::Date::weekday` and
/// `time::Weekday::number_days_from_sunday`.
///
/// Trusted: that the date exists for every month in range, and that `time`
/// finds its weekday in the proleptic Gregorian calendar, which is what
/// [`first_weekday_index`] writes down.
#[verifier::external_body]
pub(crate) fn weekday_of_first(year: i32, month: u8) -> (index: u8)
    requires
        in_range(year as int, month as int),
    ensures
        index == first_weekday_index(year as int, month as int),
{
    let month = time::Month::try_from(month).expect("month number within 1..=12");
    let first = time::Date::from_calendar_date(year, month, 1).expect("first of a month in range");
    first.weekday().number_days_from_sunday()
}

} // verus!
