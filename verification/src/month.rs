//! The layout of one month in the calendar view: its days in weeks of seven cells, Sunday
//! first, and what each day cell shows.

use vstd::prelude::*;
use crate::date::{Date, MIN_YEAR, MAX_YEAR, days_in_month, weekday_from_sunday, weekday_of};
use crate::lunnar::{LunnarDate, lunisolar_supported, lunisolar_reading, lunar_day_name,
    festival_or_term};

verus! {

/// One month of one year, to be drawn as a grid of weeks.
pub struct MonthDrawer {
    pub year: i32,
    /// The month, 1 to 12.
    pub month: u8,
}

/// Cell `k` of the month's grid, counting row by row from the first Sunday cell: empty before
/// the weekday of the month's first day and after its last day, else the day of the month.
pub open spec fn month_cell(year: int, month: int, k: int) -> Option<u8> {
    let offset = weekday_from_sunday(year, month, 1);
    if offset <= k < offset + days_in_month(year, month) {
        Some((k - offset + 1) as u8)
    } else {
        None
    }
}

/// The number of weeks (rows) of the month's grid: enough rows of seven for the leading empty
/// cells and every day.
pub open spec fn month_rows(year: int, month: int) -> int {
    (weekday_from_sunday(year, month, 1) + days_in_month(year, month) + 6) / 7
}

/// `rows` is the grid of the month: `month_rows` rows of seven cells, cell `j` of row `i` being
/// `month_cell(.., 7 * i + j)`.
pub open spec fn is_month_grid(year: int, month: int, rows: Seq<Seq<Option<u8>>>) -> bool {
    &&& rows.len() == month_rows(year, month)
    &&& forall|i: int| 0 <= i < rows.len() ==> (#[trigger] rows[i]).len() == 7
    &&& forall|i: int, j: int|
        0 <= i < rows.len() && 0 <= j < 7 ==> #[trigger] rows[i][j] == month_cell(year, month, 7 * i + j)
}

/// The colours that a day cell takes where the calendar's events give it none.
#[derive(Clone, Copy, Debug, PartialEq, Eq, Structural)]
pub enum CellColor {
    White,
    Black,
    DarkGray,
}

/// What a day cell's style gains: a foreground colour (and boldness) where it has none, and a
/// background colour where it has none. `None` keeps the style's own colour.
#[derive(Clone, Copy, Debug, PartialEq, Eq, Structural)]
pub struct StyleDefaults {
    pub fg: Option<CellColor>,
    pub bold: bool,
    pub bg: Option<CellColor>,
}

/// What a day cell's style gains: where the style has no foreground colour, black text for a
/// lunar cell and white bold text for a solar one; where it has no background colour, dark gray.
pub open spec fn style_defaults_for(has_fg: bool, has_bg: bool, is_lunar: bool) -> StyleDefaults {
    StyleDefaults {
        fg: if has_fg {
            None
        } else if is_lunar {
            Some(CellColor::Black)
        } else {
            Some(CellColor::White)
        },
        bold: !has_fg && !is_lunar,
        bg: if has_bg { None } else { Some(CellColor::DarkGray) },
    }
}

/// The text of a day's lunar cell: the solar term (or 春节) that falls on it, else its lunar day.
pub open spec fn lunar_label_text(y: int, m: int, d: int) -> Seq<char> {
    let term = festival_or_term(y, m, d);
    if term.len() == 0 {
        lunar_day_name(lunisolar_reading(y, m, d).3)
    } else {
        term
    }
}

impl MonthDrawer {
    /// The grid of the month: weeks of seven cells, Sunday first, holding the days of the month
    /// in order; empty where the year lies outside -9999 to 9999.
    pub fn month_grid(&self) -> (r: Vec<Vec<Option<u8>>>)
        requires
            1 <= self.month <= 12,
        ensures
            !(MIN_YEAR <= self.year <= MAX_YEAR) ==> r.len() == 0,
            MIN_YEAR <= self.year <= MAX_YEAR ==> is_month_grid(
                self.year as int,
                self.month as int,
                r@.map_values(|row: Vec<Option<u8>>| row@),
            ),
    {
        let ghost year = self.year as int;
        let ghost month = self.month as int;
        let ghost offset = weekday_from_sunday(year, month, 1);
        let ghost length = days_in_month(year, month);
        let mut rows: Vec<Vec<Option<u8>>> = Vec::new();
        let mut line: Vec<Option<u8>> = Vec::new();
        let mut day: u8 = 1;
        let ghost mut in_range = false;
        while day < 32
            invariant
                1 <= day <= 32,
                1 <= self.month <= 12,
                year == self.year && month == self.month,
                offset == weekday_from_sunday(year, month, 1),
                length == days_in_month(year, month),
                in_range <==> day > 1,
                in_range ==> MIN_YEAR <= year <= MAX_YEAR && 0 <= offset < 7,
                day - 1 <= length,
                line.len() < 7,
                rows.len() * 7 + line.len() == (if day == 1 { 0 } else { offset + day - 1 }),
                forall|i: int| 0 <= i < rows.len() ==> (#[trigger] rows@[i]).len() == 7,
                forall|i: int, j: int|
                    0 <= i < rows.len() && 0 <= j < 7 ==> #[trigger] rows@[i]@[j] == month_cell(
                        year,
                        month,
                        7 * i + j,
                    ),
                forall|j: int| 0 <= j < line.len() ==> #[trigger] line@[j] == month_cell(
                    year,
                    month,
                    7 * rows.len() + j,
                ),
            ensures
                in_range ==> rows.len() * 7 + line.len() == offset + length,
                !in_range ==> rows.len() == 0 && line.len() == 0 && !(MIN_YEAR <= year <= MAX_YEAR),
                line.len() < 7,
                forall|i: int| 0 <= i < rows.len() ==> (#[trigger] rows@[i]).len() == 7,
                forall|i: int, j: int|
                    0 <= i < rows.len() && 0 <= j < 7 ==> #[trigger] rows@[i]@[j] == month_cell(
                        year,
                        month,
                        7 * i + j,
                    ),
                forall|j: int| 0 <= j < line.len() ==> #[trigger] line@[j] == month_cell(
                    year,
                    month,
                    7 * rows.len() + j,
                ),
            decreases 32 - day,
        {
            let date = match Date::from_calendar_date(self.year, self.month, day) {
                Some(date) => date,
                None => break,
            };
            if day == 1 {
                // blank cells before the first day of the month
                let start = weekday_of(&date);
                let mut blank: u8 = 0;
                while blank < start
                    invariant
                        day == 1,
                        start == offset,
                        offset == weekday_from_sunday(year, month, 1),
                        0 <= offset < 7,
                        blank <= start,
                        rows.len() == 0,
                        line.len() == blank,
                        forall|j: int| 0 <= j < line.len() ==> #[trigger] line@[j] == month_cell(
                            year,
                            month,
                            j,
                        ),
                    decreases start - blank,
                {
                    line.push(None);
                    blank = blank + 1;
                }
                proof {
                    in_range = true;
                }
            }
            line.push(Some(day));
            if line.len() == 7 {
                rows.push(line);
                line = Vec::new();
            }
            day = day + 1;
        }
        if line.len() > 0 {
            // blank cells after the last day of the month
            while line.len() < 7
                invariant
                    in_range,
                    line.len() <= 7,
                    offset == weekday_from_sunday(year, month, 1),
                    length == days_in_month(year, month),
                    forall|j: int| 0 <= j < line.len() ==> #[trigger] line@[j] == month_cell(
                        year,
                        month,
                        7 * rows.len() + j,
                    ),
                    rows.len() * 7 + line.len() >= offset + length,
                decreases 7 - line.len(),
            {
                line.push(None);
            }
            rows.push(line);
        }
        proof {
            let view = rows@.map_values(|row: Vec<Option<u8>>| row@);
            assert forall|i: int, j: int| 0 <= i < view.len() && 0 <= j < 7 implies #[trigger] view[i][j]
                == month_cell(year, month, 7 * i + j) by {
                assert(view[i] == rows@[i]@);
            }
        }
        rows
    }

    /// What a day cell's style gains where the calendar's events set no colour: a lunar cell
    /// gets black text, a solar cell white bold text, and either a dark gray background.
    pub fn style_defaults(has_fg: bool, has_bg: bool, is_lunar: bool) -> (r: StyleDefaults)
        ensures
            r == style_defaults_for(has_fg, has_bg, is_lunar),
    {
        let mut defaults = StyleDefaults { fg: None, bold: false, bg: None };
        if !has_fg {
            if is_lunar {
                defaults.fg = Some(CellColor::Black);
            } else {
                defaults.fg = Some(CellColor::White);
                defaults.bold = true;
            }
        }
        if !has_bg {
            defaults.bg = Some(CellColor::DarkGray);
        }
        defaults
    }

    /// The text of a day's lunar cell: the solar term (or 春节) that falls on it, else its lunar
    /// day.
    pub fn lunar_label(date: &Date) -> (r: String)
        requires
            date.wf(),
            lunisolar_supported(date.year as int, date.month as int, date.day as int),
        ensures
            r@ == lunar_label_text(date.year as int, date.month as int, date.day as int),
    {
        let lunar = match LunnarDate::from(date) {
            Ok(lunar) => lunar,
            Err(_) => return String::new(),
        };
        if lunar.solar_term.as_str().is_empty() {
            lunar.day
        } else {
            lunar.solar_term
        }
    }
}

/// Every cell of the month's grid that holds a day stands in the column of that day's weekday,
/// Sunday first; and it holds a day of the month.
pub proof fn lemma_grid_day_in_weekday_column(
    year: int,
    month: int,
    rows: Seq<Seq<Option<u8>>>,
    i: int,
    j: int,
    day: u8,
)
    requires
        MIN_YEAR <= year <= MAX_YEAR,
        1 <= month <= 12,
        is_month_grid(year, month, rows),
        0 <= i < rows.len(),
        0 <= j < 7,
        rows[i][j] == Some(day),
    ensures
        1 <= day <= days_in_month(year, month),
        j == weekday_from_sunday(year, month, day as int),
{
    let first = crate::date::day_number(year, month, 1);
    let offset = weekday_from_sunday(year, month, 1);
    vstd::arithmetic::div_mod::lemma_fundamental_div_mod(first, 7);
    let k = 7 * i + j;
    assert(rows[i][j] == month_cell(year, month, k));
    assert(crate::date::day_number(year, month, day as int) == 7 * (first / 7 + i) + j);
    vstd::arithmetic::div_mod::lemma_fundamental_div_mod_converse(
        crate::date::day_number(year, month, day as int),
        7,
        first / 7 + i,
        j,
    );
}

/// Every day of the month has a cell in the month's grid.
pub proof fn lemma_grid_holds_every_day(year: int, month: int, rows: Seq<Seq<Option<u8>>>, day: int)
    requires
        MIN_YEAR <= year <= MAX_YEAR,
        1 <= month <= 12,
        is_month_grid(year, month, rows),
        1 <= day <= days_in_month(year, month),
    ensures
        exists|i: int, j: int| 0 <= i < rows.len() && 0 <= j < 7 && #[trigger] rows[i][j] == Some(day as u8),
{
    let offset = weekday_from_sunday(year, month, 1);
    let k = offset + day - 1;
    let (i, j) = (k / 7, k % 7);
    assert(rows[i][j] == Some(day as u8));
}

/// A cell style gains only the colours it lacks: a foreground exactly where it has none (black
/// for a lunar cell, white for a solar one), a dark gray background exactly where it has none,
/// and boldness only with the white of a solar cell.
pub proof fn lemma_styles_fill_only_what_is_missing(has_fg: bool, has_bg: bool, is_lunar: bool)
    ensures
        (style_defaults_for(has_fg, has_bg, is_lunar).fg is Some) == !has_fg,
        (style_defaults_for(has_fg, has_bg, is_lunar).bg is Some) == !has_bg,
        !has_fg && is_lunar ==> style_defaults_for(has_fg, has_bg, is_lunar).fg == Some(CellColor::Black),
        !has_fg && !is_lunar ==> style_defaults_for(has_fg, has_bg, is_lunar).fg == Some(CellColor::White),
        !has_bg ==> style_defaults_for(has_fg, has_bg, is_lunar).bg == Some(CellColor::DarkGray),
        style_defaults_for(has_fg, has_bg, is_lunar).bold <==> (!has_fg && !is_lunar),
{
}

/// A lunar cell shows the date's solar term, or 春节, wherever there is one, and otherwise the
/// name of its lunar day.
pub proof fn lemma_lunar_label_prefers_term(y: int, m: int, d: int)
    ensures
        festival_or_term(y, m, d).len() > 0 ==> lunar_label_text(y, m, d) == festival_or_term(y, m, d),
        festival_or_term(y, m, d).len() == 0 ==> lunar_label_text(y, m, d) == lunar_day_name(
            lunisolar_reading(y, m, d).3,
        ),
{
}

/// No day appears twice in the month's grid: two cells holding the same day are the same cell.
pub proof fn lemma_grid_days_once(
    year: int,
    month: int,
    rows: Seq<Seq<Option<u8>>>,
    i1: int,
    j1: int,
    i2: int,
    j2: int,
)
    requires
        MIN_YEAR <= year <= MAX_YEAR,
        1 <= month <= 12,
        is_month_grid(year, month, rows),
        0 <= i1 < rows.len() && 0 <= j1 < 7,
        0 <= i2 < rows.len() && 0 <= j2 < 7,
        rows[i1][j1] is Some,
        rows[i1][j1] == rows[i2][j2],
    ensures
        i1 == i2 && j1 == j2,
{
    assert(rows[i1][j1] == month_cell(year, month, 7 * i1 + j1));
    assert(rows[i2][j2] == month_cell(year, month, 7 * i2 + j2));
}

/// The grid has no spare weeks: its first row holds the 1st of the month and its last row the
/// month's last day, each in the column of its weekday.
pub proof fn lemma_grid_is_tight(year: int, month: int, rows: Seq<Seq<Option<u8>>>)
    requires
        MIN_YEAR <= year <= MAX_YEAR,
        1 <= month <= 12,
        is_month_grid(year, month, rows),
    ensures
        rows.len() > 0,
        rows[0][weekday_from_sunday(year, month, 1)] == Some(1u8),
        rows[rows.len() - 1][weekday_from_sunday(year, month, days_in_month(year, month))] == Some(
            days_in_month(year, month) as u8,
        ),
{
    let first = crate::date::day_number(year, month, 1);
    let offset = weekday_from_sunday(year, month, 1);
    let length = days_in_month(year, month);
    vstd::arithmetic::div_mod::lemma_fundamental_div_mod(first, 7);
    let k = offset + length - 1;
    assert(rows[0][offset] == month_cell(year, month, 7 * 0 + offset));
    let (i, j) = (k / 7, k % 7);
    assert(i == rows.len() - 1);
    assert(crate::date::day_number(year, month, length) == 7 * (first / 7 + i) + j);
    vstd::arithmetic::div_mod::lemma_fundamental_div_mod_converse(
        crate::date::day_number(year, month, length),
        7,
        first / 7 + i,
        j,
    );
    assert(rows[i][j] == month_cell(year, month, 7 * i + j));
}

} // verus!
