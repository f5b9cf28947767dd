//! Calendar dates as plain values, with the few calls into `chrono` that
//! parse, construct, subtract and read the local date.
use vstd::prelude::*;
use chrono::Datelike;

verus! {

/// A calendar date of the proleptic Gregorian calendar.
#[derive(Clone, Copy, Debug, PartialEq, Eq, Structural)]
pub struct Date {
    pub year: i32,
    pub month: u32,
    pub day: u32,
}

/// Smallest year that `chrono::NaiveDate` represents.
pub open spec fn min_year() -> int {
    -262143
}

/// Largest year that `chrono::NaiveDate` represents.
pub open spec fn max_year() -> int {
    262142
}

pub open spec fn is_leap(y: int) -> bool {
    (y % 4 == 0 && y % 100 != 0) || y % 400 == 0
}

pub open spec fn days_in_month(y: int, m: int) -> int {
    if m == 2 {
        if is_leap(y) {
            29
        } else {
            28
        }
    } else if m == 4 || m == 6 || m == 9 || m == 11 {
        30
    } else {
        31
    }
}

/// `(y, m, d)` names a day that exists and that `chrono::NaiveDate` can hold.
pub open spec fn valid_ymd(y: int, m: int, d: int) -> bool {
    &&& min_year() <= y <= max_year()
    &&& 1 <= m <= 12
    &&& 1 <= d <= days_in_month(y, m)
}

pub open spec fn valid_date(d: Date) -> bool {
    valid_ymd(d.year as int, d.month as int, d.day as int)
}

/// Days in the months of year `y` before month `m`.
pub open spec fn days_before_month(y: int, m: int) -> int
    decreases m,
{
    if m <= 1 {
        0
    } else {
        days_before_month(y, m - 1) + days_in_month(y, m - 1)
    }
}

/// Days in the years before year `y`, counted from a fixed origin.
pub open spec fn days_before_year(y: int) -> int {
    let p = y - 1;
    365 * p + p / 4 - p / 100 + p / 400
}

/// The position of a day on the day line: consecutive days get consecutive numbers.
pub open spec fn day_number(d: Date) -> int {
    days_before_year(d.year as int) + days_before_month(d.year as int, d.month as int)
        + d.day as int
}

/// Chronological order of dates.
pub open spec fn date_le(a: Date, b: Date) -> bool {
    ||| a.year < b.year
    ||| a.year == b.year && a.month < b.month
    ||| a.year == b.year && a.month == b.month && a.day <= b.day
}

/// What `NaiveDate::parse_from_str(s, "%Y-%m-%d")` gives, as (year, month, day).
pub uninterp spec fn ymd_parse(s: Seq<char>) -> Option<(i32, u32, u32)>;

/// Parses `s` as `%Y-%m-%d` with `chrono::NaiveDate::parse_from_str`.
/// Claimed: the result is the named parse of `s`, and a parsed date is a
/// valid date (a `NaiveDate` only ever holds one).
#[verifier::external_body]
pub(crate) fn parse_ymd(s: &str) -> (res: Option<Date>)
    ensures
        match res {
            Some(d) => ymd_parse(s@) == Some((d.year, d.month, d.day)) && valid_date(d),
            None => ymd_parse(s@) is None,
        },
{
    match chrono::NaiveDate::parse_from_str(s, "%Y-%m-%d") {
        Ok(d) => Some(Date { year: d.year(), month: d.month(), day: d.day() }),
        Err(_) => None,
    }
}

/// `chrono::NaiveDate::from_ymd_opt`: claimed to give the date exactly when
/// the day exists in the calendar and the year is in `NaiveDate`'s range.
#[verifier::external_body]
pub(crate) fn date_from_ymd(y: i32, m: u32, d: u32) -> (res: Option<Date>)
    ensures
        res == (if valid_ymd(y as int, m as int, d as int) {
            Some(Date { year: y, month: m, day: d })
        } else {
            None
        }),
{
    match chrono::NaiveDate::from_ymd_opt(y, m, d) {
        Some(_) => Some(Date { year: y, month: m, day: d }),
        None => None,
    }
}

/// `chrono::Local::now().date_naive()`: the local date, which depends on the
/// clock and time zone; claimed only to be a valid date.
#[verifier::external_body]
pub(crate) fn local_today() -> (res: Date)
    ensures
        valid_date(res),
{
    let d = chrono::Local::now().date_naive();
    Date { year: d.year(), month: d.month(), day: d.day() }
}

/// `(to - from).num_days()` on `chrono::NaiveDate`s: claimed to be the
/// number of days from `from` to `to`.
#[verifier::external_body]
pub(crate) fn days_between(from: Date, to: Date) -> (res: i64)
    requires
        valid_date(from),
        valid_date(to),
    ensures
        res == day_number(to) - day_number(from),
{
    let a = chrono::NaiveDate::from_ymd_opt(from.year, from.month, from.day).unwrap();
    let b = chrono::NaiveDate::from_ymd_opt(to.year, to.month, to.day).unwrap();
    (b - a).num_days()
}

/// Chronological comparison (`NaiveDate`'s order).
pub fn date_at_most(a: Date, b: Date) -> (res: bool)
    ensures
        res == date_le(a, b),
{
    a.year < b.year || (a.year == b.year && (a.month < b.month || (a.month == b.month && a.day
        <= b.day)))
}

} // verus!
