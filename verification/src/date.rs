//! Dates of the proleptic Gregorian calendar, as the `time` crate represents them
//! (years -9999 to 9999), modelled by their year, month and day.

use vstd::prelude::*;
use vstd::arithmetic::div_mod::lemma_fundamental_div_mod_converse;

verus! {

/// The smallest year that a `Date` can hold.
pub const MIN_YEAR: i32 = -9999;

/// The largest year that a `Date` can hold.
pub const MAX_YEAR: i32 = 9999;

/// Whether `y` is a leap year of the proleptic Gregorian calendar.
pub open spec fn is_leap_year(y: int) -> bool {
    y % 4 == 0 && (y % 100 != 0 || y % 400 == 0)
}

/// Number of days of month `m` (1 to 12) in year `y`.
pub open spec fn days_in_month(y: int, m: int) -> int {
    if m == 2 {
        if is_leap_year(y) { 29 } else { 28 }
    } else if m == 4 || m == 6 || m == 9 || m == 11 {
        30
    } else {
        31
    }
}

/// Number of days of year `y`.
pub open spec fn days_in_year(y: int) -> int {
    if is_leap_year(y) { 366 } else { 365 }
}

/// Whether year, month and day name a date that a `Date` can hold.
pub open spec fn valid_ymd(y: int, m: int, d: int) -> bool {
    &&& MIN_YEAR <= y <= MAX_YEAR
    &&& 1 <= m <= 12
    &&& 1 <= d <= days_in_month(y, m)
}

/// Days of all the years before year `y`, counted from 0001-01-01.
pub open spec fn days_before_year(y: int) -> int {
    let p = y - 1;
    365 * p + p / 4 - p / 100 + p / 400
}

/// Days of the months of year `y` before month `m`.
pub open spec fn days_before_month(y: int, m: int) -> int {
    let common: int = if m == 1 {
        0
    } else if m == 2 {
        31
    } else if m == 3 {
        59
    } else if m == 4 {
        90
    } else if m == 5 {
        120
    } else if m == 6 {
        151
    } else if m == 7 {
        181
    } else if m == 8 {
        212
    } else if m == 9 {
        243
    } else if m == 10 {
        273
    } else if m == 11 {
        304
    } else {
        334
    };
    if m > 2 && is_leap_year(y) { common + 1 } else { common }
}

/// The consecutive number of a day: 0001-01-01 is day 1, and each next day counts one more.
pub open spec fn day_number(y: int, m: int, d: int) -> int {
    days_before_year(y) + days_before_month(y, m) + d
}

/// The day of the week, counted from Sunday (0) to Saturday (6); 0001-01-01 is a Monday.
pub open spec fn weekday_from_sunday(y: int, m: int, d: int) -> int {
    day_number(y, m, d) % 7
}

/// A date of the proleptic Gregorian calendar.
#[derive(Clone, Copy, Debug, PartialEq, Eq, Structural)]
pub struct Date {
    pub year: i32,
    pub month: u8,
    pub day: u8,
}

impl Date {
    /// The date names a day that exists, within the supported years.
    pub open spec fn wf(&self) -> bool {
        valid_ymd(self.year as int, self.month as int, self.day as int)
    }

    /// This date's consecutive day number.
    pub open spec fn number(&self) -> int {
        day_number(self.year as int, self.month as int, self.day as int)
    }

    /// The date from its year, month (1 to 12) and day of the month; `None` where no such day
    /// exists or the year lies outside -9999 to 9999.
    pub fn from_calendar_date(year: i32, month: u8, day: u8) -> (r: Option<Date>)
        ensures
            r is Some <==> valid_ymd(year as int, month as int, day as int),
            r matches Some(d) ==> d.year == year && d.month == month && d.day == day,
    {
        if year < MIN_YEAR || year > MAX_YEAR || month < 1 || month > 12 || day < 1 {
            return None;
        }
        if day > month_length(year, month) {
            return None;
        }
        Some(Date { year, month, day })
    }
}

/// Calls `time::Month::length`: the number of days of `month` in `year`, by the leap-year rule of
/// the proleptic Gregorian calendar (`time::util::is_leap_year`).
#[verifier::external_body]
pub(crate) fn month_length(year: i32, month: u8) -> (r: u8)
    requires
        1 <= month <= 12,
    ensures
        r == days_in_month(year as int, month as int),
{
    time::Month::try_from(month).unwrap().length(year)
}

/// Calls `time::Date::weekday` and `time::Weekday::number_days_from_sunday` on the date: the day
/// of its week, Sunday counting 0.
#[verifier::external_body]
pub(crate) fn weekday_of(date: &Date) -> (r: u8)
    requires
        date.wf(),
    ensures
        r == weekday_from_sunday(date.year as int, date.month as int, date.day as int),
{
    let month = time::Month::try_from(date.month).unwrap();
    time::Date::from_calendar_date(date.year, month, date.day).unwrap().weekday().number_days_from_sunday()
}

/// Calls `time::Date::checked_add` with `time::Duration::days(days)`: the date `days` days later
/// (earlier where `days` is negative), or `None` where it falls outside -9999-01-01 to 9999-12-31.
#[verifier::external_body]
pub(crate) fn checked_add_days(date: &Date, days: i32) -> (r: Option<Date>)
    requires
        date.wf(),
    ensures
        r is Some <==> day_number(MIN_YEAR as int, 1, 1) <= date.number() + days
            <= day_number(MAX_YEAR as int, 12, 31),
        r matches Some(n) ==> n.wf() && n.number() == date.number() + days,
{
    let month = time::Month::try_from(date.month).unwrap();
    let start = time::Date::from_calendar_date(date.year, month, date.day).unwrap();
    match start.checked_add(time::Duration::days(days as i64)) {
        Some(next) => Some(Date { year: next.year(), month: next.month() as u8, day: next.day() }),
        None => None,
    }
}

/// One step of a floor division: `(x + 1) / k` exceeds `x / k` by one exactly when `k`
/// divides `x + 1`.
proof fn lemma_div_step(x: int, k: int)
    requires
        k > 0,
    ensures
        (x + 1) / k == x / k + (if (x + 1) % k == 0 { 1int } else { 0int }),
{
    let q = x / k;
    let r = x % k;
    vstd::arithmetic::div_mod::lemma_fundamental_div_mod(x, k);
    vstd::arithmetic::div_mod::lemma_mod_bound(x, k);
    if r == k - 1 {
        assert(x + 1 == (q + 1) * k + 0) by (nonlinear_arith)
            requires x == k * q + r, r == k - 1;
        lemma_fundamental_div_mod_converse(x + 1, k, q + 1, 0);
    } else {
        assert(x + 1 == q * k + (r + 1)) by (nonlinear_arith)
            requires x == k * q + r;
        lemma_fundamental_div_mod_converse(x + 1, k, q, r + 1);
    }
}

/// A multiple of `a * b` is a multiple of `b`.
proof fn lemma_multiple_divides(y: int, a: int, b: int)
    requires
        a > 0,
        b > 0,
        y % (a * b) == 0,
    ensures
        y % b == 0,
{
    assert(a * b > 0) by (nonlinear_arith)
        requires a > 0, b > 0;
    vstd::arithmetic::div_mod::lemma_fundamental_div_mod(y, a * b);
    let q = y / (a * b);
    assert(y == (q * a) * b + 0) by (nonlinear_arith)
        requires y == (a * b) * q + y % (a * b), y % (a * b) == 0;
    lemma_fundamental_div_mod_converse(y, b, q * a, 0);
}

/// The first day of year `y + 1` follows the last day of year `y`.
pub proof fn lemma_days_before_next_year(y: int)
    ensures
        days_before_year(y + 1) == days_before_year(y) + days_in_year(y),
{
    lemma_div_step(y - 1, 4);
    lemma_div_step(y - 1, 100);
    lemma_div_step(y - 1, 400);
    if y % 400 == 0 {
        lemma_multiple_divides(y, 4, 100);
    }
    if y % 100 == 0 {
        lemma_multiple_divides(y, 25, 4);
    }
}

/// Later years begin later: each year has at least 365 days.
pub proof fn lemma_days_before_year_grows(a: int, b: int)
    requires
        a <= b,
    ensures
        days_before_year(a) + 365 * (b - a) <= days_before_year(b),
    decreases b - a,
{
    if a < b {
        lemma_days_before_year_grows(a, b - 1);
        lemma_days_before_next_year(b - 1);
    }
}

/// The day number of a valid date lies within the days of its year.
proof fn lemma_number_in_year(y: int, m: int, d: int)
    requires
        valid_ymd(y, m, d),
    ensures
        days_before_year(y) + 1 <= day_number(y, m, d) <= days_before_year(y) + days_in_year(y),
{
}

/// Within a year, a later month begins after every day of an earlier one.
proof fn lemma_month_order(y: int, m1: int, d1: int, m2: int, d2: int)
    requires
        valid_ymd(y, m1, d1),
        valid_ymd(y, m2, d2),
        m1 < m2,
    ensures
        days_before_month(y, m1) + d1 < days_before_month(y, m2) + d2,
{
}

/// Two valid dates with the same day number are the same date.
pub proof fn lemma_number_injective(a: Date, b: Date)
    requires
        a.wf(),
        b.wf(),
        a.number() == b.number(),
    ensures
        a == b,
{
    let (ya, yb) = (a.year as int, b.year as int);
    lemma_number_in_year(ya, a.month as int, a.day as int);
    lemma_number_in_year(yb, b.month as int, b.day as int);
    if ya < yb {
        lemma_days_before_next_year(ya);
        lemma_days_before_year_grows(ya + 1, yb);
    } else if yb < ya {
        lemma_days_before_next_year(yb);
        lemma_days_before_year_grows(yb + 1, ya);
    }
    assert(ya == yb);
    if a.month < b.month {
        lemma_month_order(ya, a.month as int, a.day as int, b.month as int, b.day as int);
    } else if b.month < a.month {
        lemma_month_order(ya, b.month as int, b.day as int, a.month as int, a.day as int);
    }
}

/// A valid date lies within the years `lo` to `hi` exactly when its day number lies from the
/// first day of `lo` to the last day of `hi`.
pub proof fn lemma_years_by_number(d: Date, lo: int, hi: int)
    requires
        d.wf(),
        lo <= hi,
    ensures
        (lo <= d.year <= hi) <==> (day_number(lo, 1, 1) <= d.number() <= day_number(hi, 12, 31)),
{
    let y = d.year as int;
    lemma_number_in_year(y, d.month as int, d.day as int);
    lemma_days_before_next_year(y);
    lemma_days_before_next_year(hi);
    if y >= lo {
        lemma_days_before_year_grows(lo, y);
    } else {
        lemma_days_before_year_grows(y + 1, lo);
    }
    if y <= hi {
        lemma_days_before_year_grows(y + 1, hi + 1);
    } else {
        lemma_days_before_year_grows(hi + 1, y);
    }
}

} // verus!
