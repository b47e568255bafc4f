//! Moving the selected date of the calendar: by month, by year, by day and by week, as the
//! keys of the calendar view ask.

use vstd::prelude::*;
use crate::date::{Date, MIN_YEAR, MAX_YEAR, days_in_month, day_number, checked_add_days,
    month_length, weekday_from_sunday, lemma_number_injective, lemma_years_by_number};

verus! {

/// The last year to which the year keys move the selected date.
pub const LAST_SHOWN_YEAR: i32 = 2100;

/// The first year to which the year keys move the selected date.
pub const FIRST_SHOWN_YEAR: i32 = 1900;

/// `day` clamped to the length of month `m` of year `y`.
pub open spec fn clamp_day(y: int, m: int, day: int) -> int {
    if day > days_in_month(y, m) { days_in_month(y, m) } else { day }
}

/// The date in year `y`, month `m`, on `day` or on the month's last day where `day` is past it.
pub open spec fn replaced(y: int, m: int, day: int) -> Date {
    Date { year: y as i32, month: m as u8, day: clamp_day(y, m, day) as u8 }
}

/// The same day of the next month (the month's last day where it is shorter).
pub open spec fn next_month_of(d: Date) -> Date {
    if d.month == 12 {
        replaced(d.year + 1, 1, d.day as int)
    } else {
        replaced(d.year as int, d.month + 1, d.day as int)
    }
}

/// The same day of the previous month (the month's last day where it is shorter).
pub open spec fn prev_month_of(d: Date) -> Date {
    if d.month == 1 {
        replaced(d.year - 1, 12, d.day as int)
    } else {
        replaced(d.year as int, d.month - 1, d.day as int)
    }
}

/// The same day of the next year, but no later than the year 2100: a date in 2100 or later
/// stays as it is.
pub open spec fn next_year_of(d: Date) -> Date {
    if d.year >= LAST_SHOWN_YEAR {
        d
    } else {
        replaced(d.year + 1, d.month as int, d.day as int)
    }
}

/// The same day of the previous year, but no earlier than the year 1900: a date in 1900 or
/// earlier stays as it is.
pub open spec fn prev_year_of(d: Date) -> Date {
    if d.year <= FIRST_SHOWN_YEAR {
        d
    } else {
        replaced(d.year - 1, d.month as int, d.day as int)
    }
}

/// The date in `year` and `month` (1 to 12) on `day`, or on the month's last day where `day` is
/// past it.
pub fn replace_date(year: i32, month: u8, day: u8) -> (r: Date)
    requires
        MIN_YEAR <= year <= MAX_YEAR,
        1 <= month <= 12,
        1 <= day,
    ensures
        r == replaced(year as int, month as int, day as int),
        r.wf(),
{
    let length = month_length(year, month);
    let day = if day > length { length } else { day };
    Date { year, month, day }
}

/// The same day of the next month (the month's last day where it is shorter).
pub fn next_month(date: Date) -> (r: Date)
    requires
        date.wf(),
        !(date.year == MAX_YEAR && date.month == 12),
    ensures
        r == next_month_of(date),
        r.wf(),
{
    if date.month == 12 {
        replace_date(date.year + 1, 1, date.day)
    } else {
        replace_date(date.year, date.month + 1, date.day)
    }
}

/// The same day of the previous month (the month's last day where it is shorter).
pub fn prev_month(date: Date) -> (r: Date)
    requires
        date.wf(),
        !(date.year == MIN_YEAR && date.month == 1),
    ensures
        r == prev_month_of(date),
        r.wf(),
{
    if date.month == 1 {
        replace_date(date.year - 1, 12, date.day)
    } else {
        replace_date(date.year, date.month - 1, date.day)
    }
}

/// The same day of the next year; a date in 2100 or later stays as it is.
pub fn next_year(date: Date) -> (r: Date)
    requires
        date.wf(),
    ensures
        r == next_year_of(date),
        r.wf(),
{
    // the calendar shows no year after 2100
    if date.year >= LAST_SHOWN_YEAR {
        return date;
    }
    replace_date(date.year + 1, date.month, date.day)
}

/// The same day of the previous year; a date in 1900 or earlier stays as it is.
pub fn prev_year(date: Date) -> (r: Date)
    requires
        date.wf(),
    ensures
        r == prev_year_of(date),
        r.wf(),
{
    // the calendar shows no year before 1900
    if date.year <= FIRST_SHOWN_YEAR {
        return date;
    }
    replace_date(date.year - 1, date.month, date.day)
}

/// A key pressed in the calendar view.
#[derive(Clone, Copy, Debug, PartialEq, Eq, Structural)]
pub enum KeyInput {
    Char(char),
    Tab,
    BackTab,
    PageUp,
    PageDown,
    Left,
    Down,
    Up,
    Right,
    Other,
}

/// What the calendar view does on a key.
#[derive(Clone, Copy, Debug, PartialEq, Eq, Structural)]
pub enum Command {
    Quit,
    NextMonth,
    PrevMonth,
    NextYear,
    PrevYear,
    /// Move the selected date by this many days (negative: back).
    MoveDays(i32),
    Today,
    Ignore,
}

/// What follows a command: the view ends, shows another date, shows today, or stays.
#[derive(Clone, Copy, Debug, PartialEq, Eq, Structural)]
pub enum Step {
    Quit,
    Select(Date),
    Today,
    Stay,
}

/// The keys of the calendar view: q quits; n or Tab, p or BackTab move by a month; PageDown,
/// PageUp by a year; h or Left, l or Right by a day; j or Down, k or Up by a week; t goes to
/// today. Every other key does nothing.
pub open spec fn command_of(key: KeyInput) -> Command {
    match key {
        KeyInput::Char(c) => {
            if c == 'q' {
                Command::Quit
            } else if c == 'n' {
                Command::NextMonth
            } else if c == 'p' {
                Command::PrevMonth
            } else if c == 'h' {
                Command::MoveDays(-1i32)
            } else if c == 'j' {
                Command::MoveDays(7i32)
            } else if c == 'k' {
                Command::MoveDays(-7i32)
            } else if c == 'l' {
                Command::MoveDays(1i32)
            } else if c == 't' {
                Command::Today
            } else {
                Command::Ignore
            }
        },
        KeyInput::Tab => Command::NextMonth,
        KeyInput::BackTab => Command::PrevMonth,
        KeyInput::PageUp => Command::PrevYear,
        KeyInput::PageDown => Command::NextYear,
        KeyInput::Left => Command::MoveDays(-1i32),
        KeyInput::Down => Command::MoveDays(7i32),
        KeyInput::Up => Command::MoveDays(-7i32),
        KeyInput::Right => Command::MoveDays(1i32),
        KeyInput::Other => Command::Ignore,
    }
}

/// Whether the command keeps the selected date within -9999-01-01 to 9999-12-31.
pub open spec fn command_applies(date: Date, cmd: Command) -> bool {
    match cmd {
        Command::NextMonth => !(date.year == MAX_YEAR && date.month == 12),
        Command::PrevMonth => !(date.year == MIN_YEAR && date.month == 1),
        Command::MoveDays(n) => day_number(MIN_YEAR as int, 1, 1) <= date.number() + n
            <= day_number(MAX_YEAR as int, 12, 31),
        _ => true,
    }
}

/// Whether year `y` is one that the calendar shows: 1900 to 2100.
pub open spec fn shown_year(y: int) -> bool {
    FIRST_SHOWN_YEAR <= y <= LAST_SHOWN_YEAR
}

/// Whether a month or day move would take a date in the shown years out of them: the next
/// month of December 2100, the previous month of January 1900, and day moves past 2100-12-31
/// or before 1900-01-01.
pub open spec fn leaves_shown_years(date: Date, cmd: Command) -> bool {
    match cmd {
        Command::NextMonth => date.year == LAST_SHOWN_YEAR && date.month == 12,
        Command::PrevMonth => date.year == FIRST_SHOWN_YEAR && date.month == 1,
        Command::MoveDays(n) => shown_year(date.year as int) && !(day_number(
            FIRST_SHOWN_YEAR as int,
            1,
            1,
        ) <= date.number() + n <= day_number(LAST_SHOWN_YEAR as int, 12, 31)),
        _ => false,
    }
}

/// `step` is what `cmd` does to the selected `date`. A move that would leave the shown years
/// leaves the date as it is.
pub open spec fn steps_to(date: Date, cmd: Command, step: Step) -> bool {
    if leaves_shown_years(date, cmd) {
        step == Step::Stay
    } else {
        match cmd {
        Command::Quit => step == Step::Quit,
        Command::NextMonth => step == Step::Select(next_month_of(date)),
        Command::PrevMonth => step == Step::Select(prev_month_of(date)),
        Command::NextYear => step == Step::Select(next_year_of(date)),
        Command::PrevYear => step == Step::Select(prev_year_of(date)),
        Command::MoveDays(n) => step matches Step::Select(d) && d.wf() && d.number()
            == date.number() + n,
        Command::Today => step == Step::Today,
        Command::Ignore => step == Step::Stay,
        }
    }
}

/// The command of a key.
pub fn command_for_key(key: KeyInput) -> (r: Command)
    ensures
        r == command_of(key),
{
    match key {
        KeyInput::Char('q') => Command::Quit,
        KeyInput::Char('n') | KeyInput::Tab => Command::NextMonth,
        KeyInput::Char('p') | KeyInput::BackTab => Command::PrevMonth,
        KeyInput::PageUp => Command::PrevYear,
        KeyInput::PageDown => Command::NextYear,
        KeyInput::Char('h') | KeyInput::Left => Command::MoveDays(-1),
        KeyInput::Char('j') | KeyInput::Down => Command::MoveDays(7),
        KeyInput::Char('k') | KeyInput::Up => Command::MoveDays(-7),
        KeyInput::Char('l') | KeyInput::Right => Command::MoveDays(1),
        KeyInput::Char('t') => Command::Today,
        _ => Command::Ignore,
    }
}

/// Whether `apply_command` can carry out the command on the selected date.
pub fn can_apply(date: Date, cmd: Command) -> (r: bool)
    requires
        date.wf(),
    ensures
        r == command_applies(date, cmd),
{
    match cmd {
        Command::NextMonth => !(date.year == MAX_YEAR && date.month == 12),
        Command::PrevMonth => !(date.year == MIN_YEAR && date.month == 1),
        Command::MoveDays(n) => checked_add_days(&date, n).is_some(),
        _ => true,
    }
}

/// Carries out a command on the selected date.
pub fn apply_command(date: Date, cmd: Command) -> (r: Step)
    requires
        date.wf(),
        command_applies(date, cmd),
    ensures
        steps_to(date, cmd, r),
        r matches Step::Select(d) ==> d.wf(),
        shown_year(date.year as int) ==> (r matches Step::Select(d) ==> shown_year(d.year as int)),
{
    let r = match cmd {
        Command::Quit => Step::Quit,
        Command::NextMonth => {
            // the calendar shows no month after December 2100
            if date.year == LAST_SHOWN_YEAR && date.month == 12 {
                Step::Stay
            } else {
                Step::Select(next_month(date))
            }
        },
        Command::PrevMonth => {
            // the calendar shows no month before January 1900
            if date.year == FIRST_SHOWN_YEAR && date.month == 1 {
                Step::Stay
            } else {
                Step::Select(prev_month(date))
            }
        },
        Command::NextYear => Step::Select(next_year(date)),
        Command::PrevYear => Step::Select(prev_year(date)),
        Command::MoveDays(n) => match checked_add_days(&date, n) {
            Some(d) => {
                proof {
                    lemma_years_by_number(d, FIRST_SHOWN_YEAR as int, LAST_SHOWN_YEAR as int);
                }
                let from_shown = FIRST_SHOWN_YEAR <= date.year && date.year <= LAST_SHOWN_YEAR;
                let to_shown = FIRST_SHOWN_YEAR <= d.year && d.year <= LAST_SHOWN_YEAR;
                // the calendar shows no day outside 1900 to 2100
                if from_shown && !to_shown {
                    Step::Stay
                } else {
                    Step::Select(d)
                }
            },
            None => Step::Stay,
        },
        Command::Today => Step::Today,
        Command::Ignore => Step::Stay,
    };
    proof {
        if shown_year(date.year as int) {
            lemma_selection_stays_shown(date, cmd, r);
        }
    }
    r
}

/// A date in the shown years (1900 to 2100) stays in them, whatever key is pressed.
pub proof fn lemma_selection_stays_shown(date: Date, cmd: Command, step: Step)
    requires
        date.wf(),
        shown_year(date.year as int),
        steps_to(date, cmd, step),
    ensures
        step matches Step::Select(x) ==> shown_year(x.year as int),
{
    if let Step::Select(x) = step {
        if let Command::MoveDays(n) = cmd {
            lemma_years_by_number(x, FIRST_SHOWN_YEAR as int, LAST_SHOWN_YEAR as int);
        }
    }
}

/// Moving by some days and then back by as many returns to the date one started from (the
/// keys l then h, h then l, j then k, k then j).
pub proof fn lemma_move_back_returns(date: Date, n: i32, there: Date, back: Date)
    requires
        date.wf(),
        steps_to(date, Command::MoveDays(n), Step::Select(there)),
        steps_to(there, Command::MoveDays(-n as i32), Step::Select(back)),
    ensures
        back == date,
{
    lemma_number_injective(back, date);
}

/// Moving by a week keeps the day of the week (the keys j and k).
pub proof fn lemma_week_keeps_weekday(date: Date, n: i32, there: Date)
    requires
        date.wf(),
        n == 7 || n == -7,
        steps_to(date, Command::MoveDays(n), Step::Select(there)),
    ensures
        weekday_from_sunday(there.year as int, there.month as int, there.day as int)
            == weekday_from_sunday(date.year as int, date.month as int, date.day as int),
{
    vstd::arithmetic::div_mod::lemma_mod_multiples_vanish(if n == 7 { 1 } else { -1 }, date.number(), 7);
}

/// The next month of the previous month, and the previous month of the next month, is the date
/// one started from, where its day exists in the month passed through.
pub proof fn lemma_month_round_trip(date: Date)
    requires
        date.wf(),
    ensures
        !(date.year == MAX_YEAR && date.month == 12) && date.day <= days_in_month(
            next_month_of(date).year as int,
            next_month_of(date).month as int,
        ) ==> prev_month_of(next_month_of(date)) == date,
        !(date.year == MIN_YEAR && date.month == 1) && date.day <= days_in_month(
            prev_month_of(date).year as int,
            prev_month_of(date).month as int,
        ) ==> next_month_of(prev_month_of(date)) == date,
{
}

/// The year keys never move a date beyond 2100 nor before 1900: a date in those years stays
/// within them.
pub proof fn lemma_year_keys_stay_shown(date: Date)
    requires
        date.wf(),
    ensures
        date.year <= LAST_SHOWN_YEAR ==> next_year_of(date).year <= LAST_SHOWN_YEAR,
        date.year >= FIRST_SHOWN_YEAR ==> prev_year_of(date).year >= FIRST_SHOWN_YEAR,
        date.year >= LAST_SHOWN_YEAR ==> next_year_of(date) == date,
        date.year <= FIRST_SHOWN_YEAR ==> prev_year_of(date) == date,
{
}

/// The next year of the previous year, and the previous year of the next year, is the date one
/// started from, within 1900 to 2100 and away from 29 February.
pub proof fn lemma_year_round_trip(date: Date)
    requires
        date.wf(),
        !(date.month == 2 && date.day == 29),
    ensures
        FIRST_SHOWN_YEAR <= date.year < LAST_SHOWN_YEAR ==> prev_year_of(next_year_of(date)) == date,
        FIRST_SHOWN_YEAR < date.year <= LAST_SHOWN_YEAR ==> next_year_of(prev_year_of(date)) == date,
{
}

/// `replace_date` keeps the year and month it is given and the day where the month has it;
/// where the month is shorter the date falls on the month's last day.
pub proof fn lemma_replaced_clamps(y: int, m: int, day: int)
    requires
        MIN_YEAR <= y <= MAX_YEAR,
        1 <= m <= 12,
        1 <= day <= 255,
    ensures
        replaced(y, m, day).wf(),
        replaced(y, m, day).year == y,
        replaced(y, m, day).month == m,
        replaced(y, m, day).day <= day,
        replaced(y, m, day).day == day || replaced(y, m, day).day == days_in_month(y, m),
        day <= days_in_month(y, m) ==> replaced(y, m, day).day == day,
{
}

/// The next month of a date lies in the calendar month right after the date's (the month
/// count `12 * year + month` grows by one), on the same day where that month has it, else on
/// its last day.
pub proof fn lemma_next_month_follows(d: Date)
    requires
        d.wf(),
        !(d.year == MAX_YEAR && d.month == 12),
    ensures
        next_month_of(d).wf(),
        12 * next_month_of(d).year + next_month_of(d).month == 12 * d.year + d.month + 1,
        next_month_of(d).day == (if d.day <= days_in_month(
            next_month_of(d).year as int,
            next_month_of(d).month as int,
        ) {
            d.day as int
        } else {
            days_in_month(next_month_of(d).year as int, next_month_of(d).month as int)
        }),
{
}

/// The previous month of a date lies in the calendar month right before the date's (the month
/// count `12 * year + month` falls by one), on the same day where that month has it, else on
/// its last day.
pub proof fn lemma_prev_month_precedes(d: Date)
    requires
        d.wf(),
        !(d.year == MIN_YEAR && d.month == 1),
    ensures
        prev_month_of(d).wf(),
        12 * prev_month_of(d).year + prev_month_of(d).month == 12 * d.year + d.month - 1,
        prev_month_of(d).day == (if d.day <= days_in_month(
            prev_month_of(d).year as int,
            prev_month_of(d).month as int,
        ) {
            d.day as int
        } else {
            days_in_month(prev_month_of(d).year as int, prev_month_of(d).month as int)
        }),
{
}

/// The next year of a date before 2100 is the same month and day one year later (the last day
/// of February where 29 February does not exist); from 2100 on the date stays.
pub proof fn lemma_next_year_same_month(d: Date)
    requires
        d.wf(),
    ensures
        next_year_of(d).wf(),
        d.year < LAST_SHOWN_YEAR ==> next_year_of(d).year == d.year + 1 && next_year_of(d).month
            == d.month && next_year_of(d).day == (if d.day <= days_in_month(d.year + 1, d.month as int) {
            d.day as int
        } else {
            days_in_month(d.year + 1, d.month as int)
        }),
        d.year >= LAST_SHOWN_YEAR ==> next_year_of(d) == d,
{
}

/// The previous year of a date after 1900 is the same month and day one year earlier (the last
/// day of February where 29 February does not exist); up to 1900 the date stays.
pub proof fn lemma_prev_year_same_month(d: Date)
    requires
        d.wf(),
    ensures
        prev_year_of(d).wf(),
        d.year > FIRST_SHOWN_YEAR ==> prev_year_of(d).year == d.year - 1 && prev_year_of(d).month
            == d.month && prev_year_of(d).day == (if d.day <= days_in_month(d.year - 1, d.month as int) {
            d.day as int
        } else {
            days_in_month(d.year - 1, d.month as int)
        }),
        d.year <= FIRST_SHOWN_YEAR ==> prev_year_of(d) == d,
{
}

/// Each command has exactly its keys: q quits; n and Tab, p and BackTab change the month;
/// PageDown and PageUp the year; l and Right, h and Left move a day; j and Down, k and Up a
/// week; t goes to today; every other key is ignored.
pub proof fn lemma_keys_of_commands(k: KeyInput)
    ensures
        command_of(k) == Command::Quit <==> k == KeyInput::Char('q'),
        command_of(k) == Command::NextMonth <==> (k == KeyInput::Char('n') || k == KeyInput::Tab),
        command_of(k) == Command::PrevMonth <==> (k == KeyInput::Char('p') || k == KeyInput::BackTab),
        command_of(k) == Command::NextYear <==> k == KeyInput::PageDown,
        command_of(k) == Command::PrevYear <==> k == KeyInput::PageUp,
        command_of(k) == Command::MoveDays(1i32) <==> (k == KeyInput::Char('l') || k == KeyInput::Right),
        command_of(k) == Command::MoveDays(-1i32) <==> (k == KeyInput::Char('h') || k == KeyInput::Left),
        command_of(k) == Command::MoveDays(7i32) <==> (k == KeyInput::Char('j') || k == KeyInput::Down),
        command_of(k) == Command::MoveDays(-7i32) <==> (k == KeyInput::Char('k') || k == KeyInput::Up),
        command_of(k) == Command::Today <==> k == KeyInput::Char('t'),
        command_of(k) matches Command::MoveDays(n) ==> (n == 1 || n == -1 || n == 7 || n == -7),
        command_of(k) == Command::Ignore <==> !(k == KeyInput::Char('q') || k == KeyInput::Char('n')
            || k == KeyInput::Char('p') || k == KeyInput::Char('h') || k == KeyInput::Char('j')
            || k == KeyInput::Char('k') || k == KeyInput::Char('l') || k == KeyInput::Char('t')
            || k == KeyInput::Tab || k == KeyInput::BackTab || k == KeyInput::PageUp || k
            == KeyInput::PageDown || k == KeyInput::Left || k == KeyInput::Down || k == KeyInput::Up
            || k == KeyInput::Right),
{
}

/// From a date in the shown years, a move stays put exactly when its target lies outside them:
/// otherwise the next or previous month is selected, and a day move selects the date that many
/// days away.
pub proof fn lemma_moves_within_shown_years(date: Date, cmd: Command, step: Step)
    requires
        date.wf(),
        shown_year(date.year as int),
        steps_to(date, cmd, step),
    ensures
        cmd == Command::NextMonth ==> (step == Step::Stay <==> !shown_year(
            next_month_of(date).year as int,
        )),
        cmd == Command::NextMonth && shown_year(next_month_of(date).year as int) ==> step
            == Step::Select(next_month_of(date)),
        cmd == Command::PrevMonth ==> (step == Step::Stay <==> !shown_year(
            prev_month_of(date).year as int,
        )),
        cmd == Command::PrevMonth && shown_year(prev_month_of(date).year as int) ==> step
            == Step::Select(prev_month_of(date)),
        forall|n: i32|
            cmd == Command::MoveDays(n) && day_number(FIRST_SHOWN_YEAR as int, 1, 1) <= date.number()
                + n <= day_number(LAST_SHOWN_YEAR as int, 12, 31) ==> (step matches Step::Select(x)
                && x.wf() && x.number() == date.number() + n && shown_year(x.year as int)),
        forall|n: i32|
            cmd == Command::MoveDays(n) && !(day_number(FIRST_SHOWN_YEAR as int, 1, 1)
                <= date.number() + n <= day_number(LAST_SHOWN_YEAR as int, 12, 31)) ==> step
                == Step::Stay,
        cmd == Command::Quit <==> step == Step::Quit,
        cmd == Command::Today <==> step == Step::Today,
{
    if let Step::Select(x) = step {
        if let Command::MoveDays(n) = cmd {
            lemma_years_by_number(x, FIRST_SHOWN_YEAR as int, LAST_SHOWN_YEAR as int);
        }
    }
}

/// A date in the shown years takes every key: no command it is given falls outside the dates
/// that can be held.
pub proof fn lemma_shown_dates_take_every_key(date: Date, key: KeyInput)
    requires
        date.wf(),
        shown_year(date.year as int),
    ensures
        command_applies(date, command_of(key)),
{
    crate::date::lemma_days_before_year_grows(MIN_YEAR as int, date.year as int);
    crate::date::lemma_days_before_year_grows(date.year as int + 1, MAX_YEAR as int);
    crate::date::lemma_days_before_next_year(date.year as int);
}

} // verus!
