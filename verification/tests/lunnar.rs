use lunar_calendar::date::Date;
use lunar_calendar::lunnar::LunnarDate;

#[test]
fn test_lunar_conversion() {
    // 2026-01-10
    let date = Date::from_calendar_date(2026, 1, 10).unwrap();
    let lunar = LunnarDate::from(&date).unwrap();
    assert_eq!(lunar.day, "廿二");
}

#[test]
fn test_solar_term() {
    // 立春 of 2024 (2024-02-04)
    let date = Date::from_calendar_date(2024, 2, 4).unwrap();
    let lunar = LunnarDate::from(&date).unwrap();
    assert_eq!(lunar.solar_term, "立春");
}

#[test]
fn spring_festival_replaces_the_solar_term() {
    let date = Date::from_calendar_date(2024, 2, 10).unwrap();
    let lunar = LunnarDate::from(&date).unwrap();
    assert_eq!(lunar.year, "甲辰");
    assert_eq!(lunar.month, "正月");
    assert_eq!(lunar.day, "初一");
    assert_eq!(lunar.solar_term, "春节");
}

#[test]
fn new_years_eve_belongs_to_the_old_year() {
    let date = Date::from_calendar_date(2024, 2, 9).unwrap();
    let lunar = LunnarDate::from(&date).unwrap();
    assert_eq!(lunar.year, "癸卯");
    assert_eq!(lunar.month, "臘月");
    assert_eq!(lunar.day, "三十");
    assert_eq!(lunar.solar_term, "");
}

#[test]
fn supported_range_edges() {
    let check = |y: i32, m: u8, d: u8| LunnarDate::is_supported(&Date::from_calendar_date(y, m, d).unwrap());
    assert!(!check(1901, 2, 18));
    assert!(check(1901, 2, 19));
    assert!(check(2101, 1, 28));
    assert!(!check(2101, 1, 29));
    assert!(!check(1900, 6, 1));
    assert!(!check(2102, 1, 1));
}

#[test]
fn first_and_last_supported_days_convert() {
    let first = LunnarDate::from(&Date::from_calendar_date(1901, 2, 19).unwrap()).unwrap();
    assert_eq!(first.month, "正月");
    assert_eq!(first.day, "初一");
    assert_eq!(first.solar_term, "春节");
    let last = LunnarDate::from(&Date::from_calendar_date(2101, 1, 28).unwrap()).unwrap();
    assert_eq!(last.month, "臘月");
}

#[test]
fn solar_term_days_of_2024() {
    let expected = [5, 20, 4, 19, 5, 20, 5, 20, 5, 21, 5, 21, 7, 23, 7, 23, 7, 23, 8, 23, 7, 22, 7, 22];
    for (i, day) in expected.iter().enumerate() {
        assert_eq!(LunnarDate::calculate_solar_term_day(2024, i), *day);
    }
}

#[test]
fn solar_term_day_past_the_terms_is_zero() {
    assert_eq!(LunnarDate::calculate_solar_term_day(2024, 24), 0);
    assert_eq!(LunnarDate::calculate_solar_term_day(2024, 100), 0);
}

#[test]
fn solar_term_day_matches_the_floating_point_formula() {
    let base = [
        5.4055, 20.12, 3.87, 18.74, 5.63, 20.646, 4.81, 20.1, 5.52, 21.04, 5.678, 21.37, 7.108,
        22.83, 7.5, 23.13, 7.646, 23.042, 8.318, 23.438, 7.438, 22.36, 7.18, 21.94,
    ];
    for year in (-250..=250).chain(1850..=2150) {
        for i in 0..24usize {
            let year_in_century = year % 100;
            let mut day: f64 = base[i] + 0.2422 * (year_in_century as f64)
                - ((year_in_century as f64 / 4.0).floor());
            if year >= 2000 && i < 2 {
                day += -0.2;
            }
            assert_eq!(LunnarDate::calculate_solar_term_day(year, i), day.round() as u8, "{} {}", year, i);
        }
    }
}

#[test]
fn term_correction_values() {
    assert_eq!(LunnarDate::get_term_correction(2000, 0), -2000);
    assert_eq!(LunnarDate::get_term_correction(2024, 1), -2000);
    assert_eq!(LunnarDate::get_term_correction(2024, 2), 0);
    assert_eq!(LunnarDate::get_term_correction(1999, 0), 0);
}

#[test]
fn solar_term_of_dates() {
    let term = |y: i32, m: u8, d: u8| LunnarDate::get_solar_term(&Date::from_calendar_date(y, m, d).unwrap());
    assert_eq!(term(2024, 2, 4), "立春");
    assert_eq!(term(2024, 2, 19), "雨水");
    assert_eq!(term(2024, 12, 22), "冬至");
    assert_eq!(term(2024, 2, 5), "");
    // outside 1900 to 2100 no term is reckoned
    assert_eq!(term(1899, 2, 4), "");
    assert_eq!(term(2101, 2, 3), "");
}

#[test]
fn solar_term_names() {
    assert_eq!(LunnarDate::solar_term_name(0), "小寒");
    assert_eq!(LunnarDate::solar_term_name(2), "立春");
    assert_eq!(LunnarDate::solar_term_name(23), "冬至");
}

#[test]
fn festival_only_on_the_first_day_of_the_first_month() {
    let date = Date::from_calendar_date(2024, 2, 4).unwrap();
    assert_eq!(LunnarDate::solar_term_or_festival(&date, 12, false, 25), "立春");
    assert_eq!(LunnarDate::solar_term_or_festival(&date, 1, false, 1), "春节");
    assert_eq!(LunnarDate::solar_term_or_festival(&date, 1, true, 1), "立春");
    assert_eq!(LunnarDate::solar_term_or_festival(&date, 1, false, 2), "立春");
    let plain = Date::from_calendar_date(2024, 2, 5).unwrap();
    assert_eq!(LunnarDate::solar_term_or_festival(&plain, 12, false, 26), "");
}

#[test]
fn leap_month_and_day_names() {
    let lunar = LunnarDate::from(&Date::from_calendar_date(2023, 4, 1).unwrap()).unwrap();
    assert_eq!(lunar.year, "癸卯");
    assert_eq!(lunar.month, "閏二月");
    assert_eq!(lunar.day, "十一");
    let lunar = LunnarDate::from(&Date::from_calendar_date(2024, 3, 1).unwrap()).unwrap();
    assert_eq!(lunar.month, "正月");
    assert_eq!(lunar.day, "廿一");
    let lunar = LunnarDate::from(&Date::from_calendar_date(2024, 2, 29).unwrap()).unwrap();
    assert_eq!(lunar.day, "二十");
}
