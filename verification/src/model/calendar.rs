//! Calendar dates: which dates exist, and the chrono calls that build,
//! parse and step them.

use chrono::Datelike;
use vstd::prelude::*;

use crate::model::card::Date;

verus! {

/// The first year chrono's `NaiveDate` represents.
pub open spec fn min_year() -> int {
    -262143
}

/// The last year chrono's `NaiveDate` represents.
pub open spec fn max_year() -> int {
    262142
}

/// Leap years of the proleptic Gregorian calendar.
pub open spec fn is_leap(y: int) -> bool {
    (y % 4 == 0 && y % 100 != 0) || y % 400 == 0
}

/// Number of days of month `m` (1 to 12) of year `y`.
pub open spec fn month_days(y: int, m: int) -> int {
    if m == 2 {
        if is_leap(y) {
            29
        } else {
            28
        }
    } else if m == 4 || m == 6 || m == 9 || m == 11 {
        30
    } else {
        31
    }
}

/// The date exists and chrono can represent it.
pub open spec fn valid_date(d: Date) -> bool {
    &&& min_year() <= d.year <= max_year()
    &&& 1 <= d.month <= 12
    &&& 1 <= d.day <= month_days(d.year as int, d.month as int)
}

/// The calendar day before `d`, if chrono can represent it.
pub open spec fn day_before(d: Date) -> Option<Date> {
    if d.day > 1 {
        Some(Date { day: (d.day - 1) as u32, ..d })
    } else if d.month > 1 {
        Some(Date { year: d.year, month: (d.month - 1) as u32, day: month_days(d.year as int, d.month - 1) as u32 })
    } else if d.year > min_year() {
        Some(Date { year: (d.year - 1) as i32, month: 12, day: 31 })
    } else {
        None
    }
}

/// What `chrono::NaiveDate::parse_from_str(s, "%Y-%m-%d")` gives.
pub uninterp spec fn parsed_date(s: Seq<char>) -> Option<Date>;

/// What `chrono::NaiveDate::checked_add_signed` gives for a whole number
/// of days.
pub uninterp spec fn days_after(d: Date, n: int) -> Option<Date>;

/// Days in the months of year `y` before month `m` (1 to 12).
pub open spec fn days_before_month(y: int, m: int) -> int {
    let common: int = if m <= 1 {
        0
    } else if m == 2 {
        31
    } else if m == 3 {
        59
    } else if m == 4 {
        90
    } else if m == 5 {
        120
    } else if m == 6 {
        151
    } else if m == 7 {
        181
    } else if m == 8 {
        212
    } else if m == 9 {
        243
    } else if m == 10 {
        273
    } else if m == 11 {
        304
    } else {
        334
    };
    common + if m > 2 && is_leap(y) { 1int } else { 0int }
}

/// The number of the day `d` in the proleptic Gregorian calendar, counted
/// from 1 January of year 0 (day 0): successive days have successive
/// numbers.
pub open spec fn day_number(d: Date) -> int {
    let y = d.year as int;
    365 * y + (y + 3) / 4 - (y + 99) / 100 + (y + 399) / 400 + days_before_month(y, d.month as int) + d.day - 1
}

/// Calls `chrono::NaiveDate::from_ymd_opt`: the date with that year,
/// month and day when it exists and is in chrono's range, else `None`.
#[verifier::external_body]
pub fn date_from_ymd(year: i32, month: u32, day: u32) -> (r: Option<Date>)
    ensures
        r == (if valid_date(Date { year, month, day }) {
            Some(Date { year, month, day })
        } else {
            None
        }),
{
    match chrono::NaiveDate::from_ymd_opt(year, month, day) {
        Some(n) => Some(Date { year: n.year(), month: n.month(), day: n.day() }),
        None => None,
    }
}

/// Calls `chrono::NaiveDate::pred_opt`: the previous calendar day, `None`
/// before the first representable date.
#[verifier::external_body]
pub fn date_pred(d: Date) -> (r: Option<Date>)
    requires
        valid_date(d),
    ensures
        r == day_before(d),
{
    match chrono::NaiveDate::from_ymd_opt(d.year, d.month, d.day).unwrap().pred_opt() {
        Some(n) => Some(Date { year: n.year(), month: n.month(), day: n.day() }),
        None => None,
    }
}

/// Calls `chrono::NaiveDate::parse_from_str` with the `%Y-%m-%d` format.
/// What it accepts is left to chrono; what it returns is a date that
/// exists.
#[verifier::external_body]
pub fn date_parse(s: &str) -> (r: Option<Date>)
    ensures
        r == parsed_date(s@),
        r matches Some(d) ==> valid_date(d),
{
    match chrono::NaiveDate::parse_from_str(s, "%Y-%m-%d") {
        Ok(n) => Some(Date { year: n.year(), month: n.month(), day: n.day() }),
        Err(_) => None,
    }
}

/// Calls `chrono::NaiveDate::checked_add_signed` with `n` whole days: the
/// date `n` days later (earlier for negative `n`), whose day number is
/// `n` more, `None` when no date chrono represents has that number, which a step of at most a year from a year
/// strictly inside the range does not. `n` is bounded so that
/// `TimeDelta::days` (which panics past about 10^11 days) accepts it.
#[verifier::external_body]
pub fn date_plus_days(d: Date, n: i64) -> (r: Option<Date>)
    requires
        valid_date(d),
        -1_000_000_000 <= n <= 1_000_000_000,
    ensures
        r == days_after(d, n as int),
        r matches Some(x) ==> valid_date(x) && day_number(x) == day_number(d) + n,
        r is None ==> forall|x: Date| #[trigger] valid_date(x) ==> day_number(x) != day_number(d) + n,
        min_year() < d.year < max_year() && -366 <= n <= 366 ==> r is Some,
{
    let base = chrono::NaiveDate::from_ymd_opt(d.year, d.month, d.day).unwrap();
    match base.checked_add_signed(chrono::TimeDelta::days(n)) {
        Some(x) => Some(Date { year: x.year(), month: x.month(), day: x.day() }),
        None => None,
    }
}

/// Calls `chrono::Local::now` and takes its date: today in the local time
/// zone. Nothing is promised of it but that it is a date chrono
/// represents.
#[verifier::external_body]
pub fn date_today() -> (r: Date)
    ensures
        valid_date(r),
{
    let n = chrono::Local::now().date_naive();
    Date { year: n.year(), month: n.month(), day: n.day() }
}

/// Number of days of month `month` of `year`: the day before the first
/// of the next month.
pub fn days_in_month(year: i32, month: u32) -> (n: u32)
    requires
        1 <= month <= 12,
        min_year() <= year <= max_year(),
        month == 12 ==> year < max_year(),
    ensures
        n == month_days(year as int, month as int),
{
    let (ny, nm) = if month == 12 {
        (year + 1, 1u32)
    } else {
        (year, month + 1)
    };
    let first_next = date_from_ymd(ny, nm, 1).unwrap();
    let last = date_pred(first_next).unwrap();
    last.day
}

} // verus!
