//! The lunar reading of a date and the 24 solar terms (节气) that fall on it.

use vstd::prelude::*;
use vstd::string::StringExecFns;
use crate::date::{Date, valid_ymd};

verus! {

/// An error of the lunar conversion.
#[derive(Debug)]
pub struct Error {
    pub message: String,
}

/// A solar date read in the Chinese lunisolar calendar, as text.
pub struct LunnarDate {
    /// The year's name in the sexagenary cycle (such as 甲辰).
    pub year: String,
    /// The lunar month's name (such as 正月 or 閏四月).
    pub month: String,
    /// The lunar day's name (such as 初一 or 廿二).
    pub day: String,
    /// The solar term that falls on the date, 春节 on the first day of the lunar year, or empty.
    pub solar_term: String,
}

/// The moment of solar term `i` within its month in the first year of a century, in
/// ten-thousandths of a day.
pub open spec fn solar_term_base(i: int) -> int {
    seq![
        54055int, 201200, 38700, 187400, 56300, 206460, 48100, 201000,
        55200, 210400, 56780, 213700, 71080, 228300, 75000, 231300,
        76460, 230420, 83180, 234380, 74380, 223600, 71800, 219400,
    ][i]
}

/// How far a solar term moves each year within a century, in ten-thousandths of a day.
pub open spec fn solar_term_coefficient() -> int {
    2422
}

/// The year within its century, with the sign of the year (as Rust's `%` gives it).
pub open spec fn year_in_century(year: int) -> int {
    if year >= 0 { year % 100 } else { -((-year) % 100) }
}

/// The correction of solar term `i` in `year`, in ten-thousandths of a day: the two terms of
/// January (小寒, 大寒) come a fifth of a day earlier from the year 2000 on.
pub open spec fn term_correction(year: int, i: int) -> int {
    if year >= 2000 && (i == 0 || i == 1) { -2000 } else { 0 }
}

/// The moment of solar term `i` within its month in `year`, in ten-thousandths of a day:
/// base + coefficient * yic - floor(yic / 4) days, plus the correction, where yic is the
/// year within its century.
pub open spec fn solar_term_moment(year: int, i: int) -> int {
    let yic = year_in_century(year);
    solar_term_base(i) + solar_term_coefficient() * yic - 10000 * (yic / 4) + term_correction(year, i)
}

/// The day of the month of solar term `i` in `year`: its moment rounded to the nearest day,
/// halves upwards; 0 for an index past the 24 terms.
pub open spec fn solar_term_day(year: int, i: int) -> int {
    if 0 <= i < 24 {
        (solar_term_moment(year, i) + 5000) / 10000
    } else {
        0
    }
}

/// The Chinese name of solar term `i`, 0 being 小寒 (early January).
pub open spec fn solar_term_name(i: int) -> Seq<char> {
    if i == 0 { "小寒"@ }
    else if i == 1 { "大寒"@ }
    else if i == 2 { "立春"@ }
    else if i == 3 { "雨水"@ }
    else if i == 4 { "惊蛰"@ }
    else if i == 5 { "春分"@ }
    else if i == 6 { "清明"@ }
    else if i == 7 { "谷雨"@ }
    else if i == 8 { "立夏"@ }
    else if i == 9 { "小满"@ }
    else if i == 10 { "芒种"@ }
    else if i == 11 { "夏至"@ }
    else if i == 12 { "小暑"@ }
    else if i == 13 { "大暑"@ }
    else if i == 14 { "立秋"@ }
    else if i == 15 { "处暑"@ }
    else if i == 16 { "白露"@ }
    else if i == 17 { "秋分"@ }
    else if i == 18 { "寒露"@ }
    else if i == 19 { "霜降"@ }
    else if i == 20 { "立冬"@ }
    else if i == 21 { "小雪"@ }
    else if i == 22 { "大雪"@ }
    else { "冬至"@ }
}

/// The name of the solar term that falls on the date, or empty where none does; the terms are
/// only reckoned for the years 1900 to 2100. Month `m` holds terms `2(m-1)` and `2(m-1)+1`.
pub open spec fn solar_term_text(y: int, m: int, d: int) -> Seq<char> {
    let first = 2 * (m - 1);
    if y < 1900 || y > 2100 {
        Seq::empty()
    } else if d == solar_term_day(y, first) {
        solar_term_name(first)
    } else if d == solar_term_day(y, first + 1) {
        solar_term_name(first + 1)
    } else {
        Seq::empty()
    }
}

/// Whether the date `y1-m1-d1` comes no later than `y2-m2-d2`.
pub open spec fn on_or_before(y1: int, m1: int, d1: int, y2: int, m2: int, d2: int) -> bool {
    y1 < y2 || (y1 == y2 && (m1 < m2 || (m1 == m2 && d1 <= d2)))
}

/// Whether the lunisolar conversion covers the solar date: from 1901-02-19 to 2101-01-28.
pub open spec fn lunisolar_supported(y: int, m: int, d: int) -> bool {
    on_or_before(1901, 2, 19, y, m, d) && on_or_before(y, m, d, 2101, 1, 28)
}

/// The lunisolar reading of a solar date by `chinese_lunisolar_calendar::LunisolarDate::from_solar_date`:
/// the solar year in which its lunar year began, the lunar month (1 to 12), whether that month
/// is a leap month, and the lunar day (1 to 30).
pub uninterp spec fn lunisolar_reading(year: int, month: int, day: int) -> (int, int, bool, int);

/// The Chinese numeral of 1 to 10.
pub open spec fn chinese_numeral(n: int) -> char {
    if n == 1 { '一' }
    else if n == 2 { '二' }
    else if n == 3 { '三' }
    else if n == 4 { '四' }
    else if n == 5 { '五' }
    else if n == 6 { '六' }
    else if n == 7 { '七' }
    else if n == 8 { '八' }
    else if n == 9 { '九' }
    else { '十' }
}

/// The heavenly stem (天干) of index 0 to 9, 甲 first.
pub open spec fn heavenly_stem(i: int) -> char {
    seq!['甲', '乙', '丙', '丁', '戊', '己', '庚', '辛', '壬', '癸'][i]
}

/// The earthly branch (地支) of index 0 to 11, 子 first.
pub open spec fn earthly_branch(i: int) -> char {
    seq!['子', '丑', '寅', '卯', '辰', '巳', '午', '未', '申', '酉', '戌', '亥'][i]
}

/// The name in the sexagenary cycle of the lunar year that began in the solar year
/// `lunisolar_year` (1901 is 辛丑): its heavenly stem and its earthly branch.
pub open spec fn lunar_year_name(lunisolar_year: int) -> Seq<char> {
    seq![
        heavenly_stem((lunisolar_year - 1901 + 7) % 10),
        earthly_branch((lunisolar_year - 1901 + 1) % 12),
    ]
}

/// The name of lunar month 1 to 12 in traditional characters: 正月, 二月 to 十月, 冬月, 臘月;
/// a leap month bears 閏 before it.
pub open spec fn lunar_month_name(month: int, leap: bool) -> Seq<char> {
    let name = if month == 1 {
        seq!['正', '月']
    } else if month == 11 {
        seq!['冬', '月']
    } else if month == 12 {
        seq!['臘', '月']
    } else {
        seq![chinese_numeral(month), '月']
    };
    if leap { seq!['閏'] + name } else { name }
}

/// The name of lunar day 1 to 30: 初一 to 初十, 十一 to 十九, 二十, 廿一 to 廿九, 三十.
pub open spec fn lunar_day_name(day: int) -> Seq<char> {
    if day <= 10 {
        seq!['初', chinese_numeral(day)]
    } else if day < 20 {
        seq!['十', chinese_numeral(day - 10)]
    } else if day == 20 {
        seq!['二', '十']
    } else if day < 30 {
        seq!['廿', chinese_numeral(day - 20)]
    } else {
        seq!['三', '十']
    }
}

/// The text of the `solar_term` field of a date whose lunar month is `lunar_month` (`leap` for
/// a leap month) and lunar day `lunar_day`: 春节 on the first day of the first (not leap) lunar
/// month, else the solar term of the date.
pub open spec fn term_or_festival(y: int, m: int, d: int, lunar_month: int, leap: bool, lunar_day: int) -> Seq<char> {
    if lunar_month == 1 && !leap && lunar_day == 1 {
        "春节"@
    } else {
        solar_term_text(y, m, d)
    }
}

/// The text that `LunnarDate::from` puts in `solar_term`, by the lunisolar reading of the date.
pub open spec fn festival_or_term(y: int, m: int, d: int) -> Seq<char> {
    let reading = lunisolar_reading(y, m, d);
    term_or_festival(y, m, d, reading.1, reading.2, reading.3)
}

/// Calls `chinese_lunisolar_calendar::LunisolarDate::from_solar_date` on the solar date (built by
/// `SolarDate::from_ymd`) and reads the result as plain numbers. It fails exactly outside
/// 1901-02-19 to 2101-01-28 (`LunisolarDate::is_safe`); the lunar year begins in the date's solar
/// year or the one before, within 1901 to 2100. The reading itself is not stated.
#[verifier::external_body]
fn lunisolar_from_solar(year: u16, month: u8, day: u8) -> (r: Option<(u16, u8, bool, u8)>)
    requires
        1 <= month <= 12,
        1 <= day <= crate::date::days_in_month(year as int, month as int),
    ensures
        r is Some <==> lunisolar_supported(year as int, month as int, day as int),
        r matches Some(v) ==> (v.0 as int, v.1 as int, v.2, v.3 as int) == lunisolar_reading(
            year as int,
            month as int,
            day as int,
        ),
        r matches Some(v) ==> 1 <= v.1 <= 12 && 1 <= v.3 <= 30 && 1901 <= v.0 <= 2100 && (v.0
            == year || v.0 + 1 == year),
{
    let solar = chinese_lunisolar_calendar::SolarDate::from_ymd(year, month, day).unwrap();
    match chinese_lunisolar_calendar::LunisolarDate::from_solar_date(solar) {
        Ok(l) => Some((
            l.to_lunisolar_year().to_u16(),
            l.to_lunar_month().to_u8(),
            l.to_lunar_month().is_leap_month(),
            l.to_lunar_day().to_u8(),
        )),
        Err(_) => None,
    }
}

/// Calls `chinese_lunisolar_calendar::LunisolarYear::to_lunar_year` for the lunar year that began in
/// `lunisolar_year` and formats it (`Display`): its name in the sexagenary cycle, from the
/// stem and branch that `LunisolarYear::to_heavenly_stems` and `to_earthly_branch` give.
#[verifier::external_body]
fn lunar_year_text(lunisolar_year: u16) -> (r: String)
    requires
        1901 <= lunisolar_year <= 2100,
    ensures
        r@ == lunar_year_name(lunisolar_year as int),
{
    let solar_year = chinese_lunisolar_calendar::SolarYear::from_u16(lunisolar_year);
    chinese_lunisolar_calendar::LunisolarYear::from_solar_year(solar_year).unwrap().to_lunar_year().to_string()
}

/// Formats `chinese_lunisolar_calendar::LunarMonth` (`Display`, traditional characters, from its
/// table of month names) for the month built by `LunarMonth::from_u8_with_leap`.
#[verifier::external_body]
fn lunar_month_text(month: u8, leap: bool) -> (r: String)
    requires
        1 <= month <= 12,
    ensures
        r@ == lunar_month_name(month as int, leap),
{
    chinese_lunisolar_calendar::LunarMonth::from_u8_with_leap(month, leap).unwrap().to_string()
}

/// Formats `chinese_lunisolar_calendar::LunarDay` (`Display`, from its table of day names) for
/// the day built by `LunarDay::from_u8`.
#[verifier::external_body]
fn lunar_day_text(day: u8) -> (r: String)
    requires
        1 <= day <= 30,
    ensures
        r@ == lunar_day_name(day as int),
{
    chinese_lunisolar_calendar::LunarDay::from_u8(day).unwrap().to_string()
}

/// The moment of a solar term lies between the 3rd and the 25th day of its month.
proof fn lemma_term_day_bounds(year: int, i: int)
    requires
        0 <= i < 24,
    ensures
        3 <= solar_term_day(year, i) <= 25,
{
}

/// Every month of the years 1900 to 2100 shows both of its solar terms: the day of each term
/// exists in the month, and the solar term found on that day is that term.
pub proof fn lemma_every_term_shown(y: int, m: int, k: int)
    requires
        1900 <= y <= 2100,
        1 <= m <= 12,
        k == 0 || k == 1,
    ensures
        valid_ymd(y, m, solar_term_day(y, 2 * (m - 1) + k)),
        solar_term_text(y, m, solar_term_day(y, 2 * (m - 1) + k)) == solar_term_name(2 * (m - 1) + k),
{
    let first = 2 * (m - 1);
    lemma_term_day_bounds(y, first);
    lemma_term_day_bounds(y, first + 1);
    assert(solar_term_day(y, first) < solar_term_day(y, first + 1));
}

/// 春节 marks only the first day of the first (not leap) lunar month: on every other lunar day
/// the `solar_term` text is the solar term of the date.
pub proof fn lemma_festival_only_on_new_year(
    y: int,
    m: int,
    d: int,
    lunar_month: int,
    leap: bool,
    lunar_day: int,
)
    ensures
        lunar_month == 1 && !leap && lunar_day == 1 ==> term_or_festival(y, m, d, lunar_month, leap, lunar_day)
            == "春节"@,
        !(lunar_month == 1 && !leap && lunar_day == 1) ==> term_or_festival(
            y,
            m,
            d,
            lunar_month,
            leap,
            lunar_day,
        ) == solar_term_text(y, m, d),
{
}

/// A date shows a solar term only on the day of one of its month's two terms, within 1900 to
/// 2100, and then it shows that term.
pub proof fn lemma_term_only_on_its_day(y: int, m: int, d: int)
    requires
        1 <= m <= 12,
    ensures
        solar_term_text(y, m, d).len() > 0 ==> 1900 <= y <= 2100 && ((d == solar_term_day(
            y,
            2 * (m - 1),
        ) && solar_term_text(y, m, d) == solar_term_name(2 * (m - 1))) || (d == solar_term_day(
            y,
            2 * (m - 1) + 1,
        ) && solar_term_text(y, m, d) == solar_term_name(2 * (m - 1) + 1))),
{
}

/// The day of a solar term is its moment rounded to the nearest day: the moment lies within half
/// a day of it.
pub proof fn lemma_term_day_is_nearest(y: int, i: int)
    requires
        0 <= i < 24,
    ensures
        10000 * solar_term_day(y, i) - 5000 <= solar_term_moment(y, i) < 10000 * solar_term_day(y, i)
            + 5000,
{
}

/// The second solar term of a month comes 14 to 16 days after the first.
pub proof fn lemma_terms_of_a_month_apart(y: int, m: int)
    requires
        1 <= m <= 12,
    ensures
        14 <= solar_term_day(y, 2 * (m - 1) + 1) - solar_term_day(y, 2 * (m - 1)) <= 16,
{
}

impl LunnarDate {
    /// Reads `date` in the lunisolar calendar. The conversion covers 1901-02-19 to 2101-01-28.
    pub fn from(date: &Date) -> (r: Result<Self, Error>)
        requires
            date.wf(),
            lunisolar_supported(date.year as int, date.month as int, date.day as int),
        ensures
            r matches Ok(l) && {
                let reading = lunisolar_reading(date.year as int, date.month as int, date.day as int);
                &&& l.year@ == lunar_year_name(reading.0)
                &&& l.month@ == lunar_month_name(reading.1, reading.2)
                &&& l.day@ == lunar_day_name(reading.3)
                &&& l.solar_term@ == festival_or_term(date.year as int, date.month as int, date.day as int)
            },
    {
        let reading = lunisolar_from_solar(date.year as u16, date.month, date.day);
        let (lunisolar_year, lunar_month, leap, lunar_day) = match reading {
            Some(v) => v,
            None => {
                // unreachable: the date lies in the supported range
                return Err(Error { message: String::from_str("the date is out of the lunisolar range") });
            },
        };
        let solar_term = Self::solar_term_or_festival(date, lunar_month, leap, lunar_day);
        Ok(LunnarDate {
            year: lunar_year_text(lunisolar_year),
            month: lunar_month_text(lunar_month, leap),
            day: lunar_day_text(lunar_day),
            solar_term,
        })
    }

    /// The solar term of `date`, or 春节 where its lunar reading is the first day of the first
    /// (not leap) lunar month.
    pub fn solar_term_or_festival(date: &Date, lunar_month: u8, leap: bool, lunar_day: u8) -> (r: String)
        requires
            date.wf(),
        ensures
            r@ == term_or_festival(
                date.year as int,
                date.month as int,
                date.day as int,
                lunar_month as int,
                leap,
                lunar_day as int,
            ),
    {
        let solar_term = Self::get_solar_term(date);
        if lunar_month == 1 && !leap && lunar_day == 1 {
            return String::from_str("春节");
        }
        solar_term
    }

    /// Whether `LunnarDate::from` covers `date`.
    pub fn is_supported(date: &Date) -> (r: bool)
        ensures
            r == lunisolar_supported(date.year as int, date.month as int, date.day as int),
    {
        let (y, m, d) = (date.year, date.month, date.day);
        let after_start = y > 1901 || (y == 1901 && (m > 2 || (m == 2 && d >= 19)));
        let before_end = y < 2101 || (y == 2101 && (m < 1 || (m == 1 && d <= 28)));
        after_start && before_end
    }
    /// The day of the month of solar term `term_index` (0 to 23) in `year`, 0 for an index past
    /// the 24 terms.
    pub fn calculate_solar_term_day(year: i32, term_index: usize) -> (r: u8)
        ensures
            r == solar_term_day(year as int, term_index as int),
            term_index < 24 ==> 3 <= r <= 25,
    {
        if term_index >= 24 {
            return 0;
        }
        let base: [i64; 24] = [
            54055, 201200, 38700, 187400, 56300, 206460, 48100, 201000,
            55200, 210400, 56780, 213700, 71080, 228300, 75000, 231300,
            76460, 230420, 83180, 234380, 74380, 223600, 71800, 219400,
        ];
        assert(base@ =~= seq![
            54055i64, 201200, 38700, 187400, 56300, 206460, 48100, 201000,
            55200, 210400, 56780, 213700, 71080, 228300, 75000, 231300,
            76460, 230420, 83180, 234380, 74380, 223600, 71800, 219400,
        ]);
        let y = year as i64;
        let year_in_century: i64 = if y >= 0 { y % 100 } else { -((-y) % 100) };
        let quarter: i64 = if year_in_century >= 0 {
            year_in_century / 4
        } else {
            -((3 - year_in_century) / 4)
        };
        assert(quarter == year_in_century / 4);
        let moment: i64 = base[term_index] + 2422 * year_in_century - 10000 * quarter
            + Self::get_term_correction(year, term_index);
        let day: i64 = (moment + 5000) / 10000;
        day as u8
    }

    /// The Chinese name of solar term `term_index` (0 to 23).
    pub fn solar_term_name(term_index: usize) -> (r: &'static str)
        requires
            term_index < 24,
        ensures
            r@ == solar_term_name(term_index as int),
    {
        if term_index == 0 {
            "小寒"
        } else if term_index == 1 {
            "大寒"
        } else if term_index == 2 {
            "立春"
        } else if term_index == 3 {
            "雨水"
        } else if term_index == 4 {
            "惊蛰"
        } else if term_index == 5 {
            "春分"
        } else if term_index == 6 {
            "清明"
        } else if term_index == 7 {
            "谷雨"
        } else if term_index == 8 {
            "立夏"
        } else if term_index == 9 {
            "小满"
        } else if term_index == 10 {
            "芒种"
        } else if term_index == 11 {
            "夏至"
        } else if term_index == 12 {
            "小暑"
        } else if term_index == 13 {
            "大暑"
        } else if term_index == 14 {
            "立秋"
        } else if term_index == 15 {
            "处暑"
        } else if term_index == 16 {
            "白露"
        } else if term_index == 17 {
            "秋分"
        } else if term_index == 18 {
            "寒露"
        } else if term_index == 19 {
            "霜降"
        } else if term_index == 20 {
            "立冬"
        } else if term_index == 21 {
            "小雪"
        } else if term_index == 22 {
            "大雪"
        } else {
            "冬至"
        }
    }

    /// The name of the solar term that falls on `date`, or an empty string where none does or
    /// the year lies outside 1900 to 2100.
    pub fn get_solar_term(date: &Date) -> (r: String)
        requires
            date.wf(),
        ensures
            r@ == solar_term_text(date.year as int, date.month as int, date.day as int),
    {
        let year = date.year;
        let month = date.month;
        let day = date.day;
        if year < 1900 || year > 2100 {
            return String::new();
        }
        // each month holds two solar terms
        let term_index = ((month - 1) * 2) as usize;
        let mut i: usize = 0;
        while i < 2
            invariant
                0 <= i <= 2,
                year == date.year && month == date.month && day == date.day,
                1900 <= year <= 2100,
                1 <= month <= 12,
                term_index == 2 * (month - 1),
                i >= 1 ==> day != solar_term_day(year as int, term_index as int),
                i >= 2 ==> day != solar_term_day(year as int, term_index + 1),
            decreases 2 - i,
        {
            let idx = term_index + i;
            let term_day = Self::calculate_solar_term_day(year, idx);
            if day == term_day {
                return String::from_str(Self::solar_term_name(idx));
            }
            i = i + 1;
        }
        String::new()
    }

    /// The correction of solar term `term_index` in `year`, in ten-thousandths of a day.
    pub fn get_term_correction(year: i32, term_index: usize) -> (r: i64)
        ensures
            r == term_correction(year as int, term_index as int),
    {
        if year >= 2000 {
            if term_index == 0 || term_index == 1 {
                -2000
            } else {
                0
            }
        } else {
            0
        }
    }
}

} // verus!
