use lunar_calendar::calendar::{
    apply_command, can_apply, command_for_key, next_month, next_year, prev_month, prev_year,
    replace_date, Command, KeyInput, Step,
};
use lunar_calendar::date::Date;

fn date(y: i32, m: u8, d: u8) -> Date {
    Date::from_calendar_date(y, m, d).unwrap()
}

#[test]
fn replace_date_clamps_the_day() {
    assert_eq!(replace_date(2023, 2, 31), date(2023, 2, 28));
    assert_eq!(replace_date(2024, 2, 31), date(2024, 2, 29));
    assert_eq!(replace_date(2024, 4, 15), date(2024, 4, 15));
}

#[test]
fn month_steps() {
    assert_eq!(next_month(date(2024, 1, 31)), date(2024, 2, 29));
    assert_eq!(next_month(date(2024, 12, 15)), date(2025, 1, 15));
    assert_eq!(prev_month(date(2023, 3, 31)), date(2023, 2, 28));
    assert_eq!(prev_month(date(2024, 1, 10)), date(2023, 12, 10));
}

#[test]
fn year_steps_stop_at_the_shown_years() {
    assert_eq!(next_year(date(2024, 2, 29)), date(2025, 2, 28));
    assert_eq!(next_year(date(2099, 5, 5)), date(2100, 5, 5));
    assert_eq!(next_year(date(2100, 5, 5)), date(2100, 5, 5));
    assert_eq!(prev_year(date(1901, 5, 5)), date(1900, 5, 5));
    assert_eq!(prev_year(date(1900, 5, 5)), date(1900, 5, 5));
    assert_eq!(prev_year(date(1850, 5, 5)), date(1850, 5, 5));
}

#[test]
fn keys_map_to_commands() {
    assert_eq!(command_for_key(KeyInput::Char('q')), Command::Quit);
    assert_eq!(command_for_key(KeyInput::Char('n')), Command::NextMonth);
    assert_eq!(command_for_key(KeyInput::Tab), Command::NextMonth);
    assert_eq!(command_for_key(KeyInput::Char('p')), Command::PrevMonth);
    assert_eq!(command_for_key(KeyInput::BackTab), Command::PrevMonth);
    assert_eq!(command_for_key(KeyInput::PageUp), Command::PrevYear);
    assert_eq!(command_for_key(KeyInput::PageDown), Command::NextYear);
    assert_eq!(command_for_key(KeyInput::Char('h')), Command::MoveDays(-1));
    assert_eq!(command_for_key(KeyInput::Left), Command::MoveDays(-1));
    assert_eq!(command_for_key(KeyInput::Char('j')), Command::MoveDays(7));
    assert_eq!(command_for_key(KeyInput::Down), Command::MoveDays(7));
    assert_eq!(command_for_key(KeyInput::Char('k')), Command::MoveDays(-7));
    assert_eq!(command_for_key(KeyInput::Up), Command::MoveDays(-7));
    assert_eq!(command_for_key(KeyInput::Char('l')), Command::MoveDays(1));
    assert_eq!(command_for_key(KeyInput::Right), Command::MoveDays(1));
    assert_eq!(command_for_key(KeyInput::Char('t')), Command::Today);
    assert_eq!(command_for_key(KeyInput::Char('x')), Command::Ignore);
    assert_eq!(command_for_key(KeyInput::Other), Command::Ignore);
}

#[test]
fn day_and_week_moves() {
    assert_eq!(apply_command(date(2024, 12, 31), Command::MoveDays(1)), Step::Select(date(2025, 1, 1)));
    assert_eq!(apply_command(date(2024, 3, 1), Command::MoveDays(-1)), Step::Select(date(2024, 2, 29)));
    assert_eq!(apply_command(date(2024, 2, 26), Command::MoveDays(7)), Step::Select(date(2024, 3, 4)));
    assert_eq!(apply_command(date(2024, 1, 3), Command::MoveDays(-7)), Step::Select(date(2023, 12, 27)));
}

#[test]
fn other_commands() {
    let d = date(2024, 6, 15);
    assert_eq!(apply_command(d, Command::Quit), Step::Quit);
    assert_eq!(apply_command(d, Command::Today), Step::Today);
    assert_eq!(apply_command(d, Command::Ignore), Step::Stay);
    assert_eq!(apply_command(d, Command::NextYear), Step::Select(date(2025, 6, 15)));
    assert_eq!(apply_command(d, Command::PrevMonth), Step::Select(date(2024, 5, 15)));
}

#[test]
fn commands_at_the_edges_of_time() {
    assert!(!can_apply(date(9999, 12, 31), Command::MoveDays(1)));
    assert!(can_apply(date(9999, 12, 30), Command::MoveDays(1)));
    assert!(!can_apply(date(-9999, 1, 1), Command::MoveDays(-1)));
    assert!(!can_apply(date(9999, 12, 1), Command::NextMonth));
    assert!(can_apply(date(9999, 11, 30), Command::NextMonth));
    assert!(!can_apply(date(-9999, 1, 31), Command::PrevMonth));
    assert!(can_apply(date(9999, 12, 31), Command::NextYear));
    assert!(can_apply(date(2024, 6, 1), Command::Quit));
}

#[test]
fn moving_there_and_back_returns() {
    let start = date(2024, 2, 29);
    for n in [1, -1, 7, -7] {
        let there = match apply_command(start, Command::MoveDays(n)) {
            Step::Select(d) => d,
            other => panic!("{:?}", other),
        };
        assert_eq!(apply_command(there, Command::MoveDays(-n)), Step::Select(start));
    }
}

#[test]
fn month_round_trip() {
    let d = date(2024, 3, 28);
    assert_eq!(prev_month(next_month(d)), d);
    assert_eq!(next_month(prev_month(d)), d);
}

#[test]
fn month_and_day_moves_stay_within_the_shown_years() {
    assert_eq!(apply_command(date(2100, 12, 15), Command::NextMonth), Step::Stay);
    assert_eq!(apply_command(date(2100, 11, 30), Command::NextMonth), Step::Select(date(2100, 12, 30)));
    assert_eq!(apply_command(date(1900, 1, 10), Command::PrevMonth), Step::Stay);
    assert_eq!(apply_command(date(1900, 2, 10), Command::PrevMonth), Step::Select(date(1900, 1, 10)));
    assert_eq!(apply_command(date(2100, 12, 31), Command::MoveDays(1)), Step::Stay);
    assert_eq!(apply_command(date(2100, 12, 28), Command::MoveDays(7)), Step::Stay);
    assert_eq!(apply_command(date(2100, 12, 24), Command::MoveDays(7)), Step::Select(date(2100, 12, 31)));
    assert_eq!(apply_command(date(1900, 1, 1), Command::MoveDays(-1)), Step::Stay);
    assert_eq!(apply_command(date(1900, 1, 3), Command::MoveDays(-7)), Step::Stay);
    assert_eq!(apply_command(date(1900, 1, 8), Command::MoveDays(-7)), Step::Select(date(1900, 1, 1)));
}

#[test]
fn moves_from_outside_the_shown_years_are_free() {
    assert_eq!(apply_command(date(2101, 1, 1), Command::MoveDays(-1)), Step::Select(date(2100, 12, 31)));
    assert_eq!(apply_command(date(1850, 1, 31), Command::NextMonth), Step::Select(date(1850, 2, 28)));
    assert_eq!(apply_command(date(1899, 12, 31), Command::MoveDays(1)), Step::Select(date(1900, 1, 1)));
}
