use lunar_calendar::date::Date;

#[test]
fn calendar_dates_are_checked() {
    assert!(Date::from_calendar_date(2024, 2, 29).is_some());
    assert!(Date::from_calendar_date(2023, 2, 29).is_none());
    assert!(Date::from_calendar_date(1900, 2, 29).is_none());
    assert!(Date::from_calendar_date(2000, 2, 29).is_some());
    assert!(Date::from_calendar_date(2024, 13, 1).is_none());
    assert!(Date::from_calendar_date(2024, 0, 1).is_none());
    assert!(Date::from_calendar_date(2024, 4, 31).is_none());
    assert!(Date::from_calendar_date(2024, 4, 0).is_none());
    assert!(Date::from_calendar_date(10000, 1, 1).is_none());
    assert!(Date::from_calendar_date(-10000, 1, 1).is_none());
    assert!(Date::from_calendar_date(-9999, 1, 1).is_some());
    assert!(Date::from_calendar_date(9999, 12, 31).is_some());
    let d = Date::from_calendar_date(2024, 7, 4).unwrap();
    assert_eq!((d.year, d.month, d.day), (2024, 7, 4));
}
