use lunar_calendar::date::Date;
use lunar_calendar::month::{CellColor, MonthDrawer, StyleDefaults};

#[test]
fn february_2026_fills_four_weeks() {
    // 2026-02-01 is a Sunday
    let grid = MonthDrawer { year: 2026, month: 2 }.month_grid();
    assert_eq!(grid.len(), 4);
    assert_eq!(grid[0], vec![Some(1), Some(2), Some(3), Some(4), Some(5), Some(6), Some(7)]);
    assert_eq!(grid[3][6], Some(28));
}

#[test]
fn january_2024_starts_on_monday() {
    let grid = MonthDrawer { year: 2024, month: 1 }.month_grid();
    assert_eq!(grid.len(), 5);
    assert_eq!(grid[0][0], None);
    assert_eq!(grid[0][1], Some(1));
    assert_eq!(grid[4], vec![Some(28), Some(29), Some(30), Some(31), None, None, None]);
}

#[test]
fn march_2025_needs_six_weeks() {
    // 2025-03-01 is a Saturday and March has 31 days
    let grid = MonthDrawer { year: 2025, month: 3 }.month_grid();
    assert_eq!(grid.len(), 6);
    assert_eq!(grid[0], vec![None, None, None, None, None, None, Some(1)]);
    assert_eq!(grid[5], vec![Some(30), Some(31), None, None, None, None, None]);
    for row in &grid {
        assert_eq!(row.len(), 7);
    }
}

#[test]
fn year_out_of_range_has_no_grid() {
    assert!(MonthDrawer { year: 10000, month: 1 }.month_grid().is_empty());
    assert!(MonthDrawer { year: -10000, month: 1 }.month_grid().is_empty());
}

#[test]
fn style_defaults_fill_missing_colours() {
    assert_eq!(
        MonthDrawer::style_defaults(false, false, false),
        StyleDefaults { fg: Some(CellColor::White), bold: true, bg: Some(CellColor::DarkGray) }
    );
    assert_eq!(
        MonthDrawer::style_defaults(false, true, true),
        StyleDefaults { fg: Some(CellColor::Black), bold: false, bg: None }
    );
    assert_eq!(
        MonthDrawer::style_defaults(true, false, false),
        StyleDefaults { fg: None, bold: false, bg: Some(CellColor::DarkGray) }
    );
}

#[test]
fn lunar_labels() {
    let label = |y: i32, m: u8, d: u8| MonthDrawer::lunar_label(&Date::from_calendar_date(y, m, d).unwrap());
    assert_eq!(label(2024, 2, 4), "立春");
    assert_eq!(label(2024, 2, 10), "春节");
    assert_eq!(label(2026, 1, 10), "廿二");
}
