use fbar::data::date::{MAX_YEAR, MIN_YEAR};
use fbar::data::Date;

#[test]
fn from_ymd_opt_keeps_year_month_day() {
    let date = Date::from_ymd_opt(2015, 3, 14).unwrap();
    assert_eq!(date, Date { year: 2015, month: 3, day: 14 });
    assert_eq!(date.year, 2015);
    assert_eq!(date.month, 3);
    assert_eq!(date.day, 14);
}

#[test]
fn from_ymd_opt_refuses_days_that_do_not_exist() {
    assert!(Date::from_ymd_opt(2015, 0, 14).is_none());
    assert!(Date::from_ymd_opt(2015, 13, 1).is_none());
    assert!(Date::from_ymd_opt(2015, 1, 0).is_none());
    assert!(Date::from_ymd_opt(2015, 1, 32).is_none());
    assert!(Date::from_ymd_opt(2023, 4, 31).is_none());
    assert!(Date::from_ymd_opt(2023, 6, 31).is_none());
    assert!(Date::from_ymd_opt(2023, 9, 31).is_none());
    assert!(Date::from_ymd_opt(2023, 11, 31).is_none());
    assert!(Date::from_ymd_opt(2023, 2, 30).is_none());
}

#[test]
fn from_ymd_opt_knows_leap_years() {
    assert!(Date::from_ymd_opt(2015, 2, 29).is_none());
    assert!(Date::from_ymd_opt(2016, 2, 29).is_some());
    assert!(Date::from_ymd_opt(1900, 2, 29).is_none());
    assert!(Date::from_ymd_opt(2000, 2, 29).is_some());
    assert!(Date::from_ymd_opt(2100, 2, 29).is_none());
    assert!(Date::from_ymd_opt(0, 2, 29).is_some());
    assert!(Date::from_ymd_opt(-4, 2, 29).is_some());
    assert!(Date::from_ymd_opt(-1, 2, 29).is_none());
    assert!(Date::from_ymd_opt(-100, 2, 29).is_none());
    assert!(Date::from_ymd_opt(-400, 2, 29).is_some());
}

#[test]
fn from_ymd_opt_knows_the_length_of_each_month() {
    let lengths = [31, 28, 31, 30, 31, 30, 31, 31, 30, 31, 30, 31];
    for month in 1..13u32 {
        let last = lengths[(month - 1) as usize];
        assert!(Date::from_ymd_opt(2023, month, last).is_some());
        assert!(Date::from_ymd_opt(2023, month, last + 1).is_none());
    }
}

#[test]
fn from_ymd_opt_refuses_years_out_of_range() {
    assert!(Date::from_ymd_opt(400000, 1, 1).is_none());
    assert!(Date::from_ymd_opt(-400000, 1, 1).is_none());
    assert!(Date::from_ymd_opt(MAX_YEAR, 12, 31).is_some());
    assert!(Date::from_ymd_opt(MAX_YEAR + 1, 1, 1).is_none());
    assert!(Date::from_ymd_opt(MIN_YEAR, 1, 1).is_some());
    assert!(Date::from_ymd_opt(MIN_YEAR - 1, 12, 31).is_none());
    assert_eq!(MAX_YEAR, 262142);
    assert_eq!(MIN_YEAR, -262143);
}

#[test]
fn on_or_before_orders_by_year_then_month_then_day() {
    let a = Date::from_ymd_opt(2023, 5, 20).unwrap();
    assert!(a.on_or_before(&a));
    let later_day = Date::from_ymd_opt(2023, 5, 21).unwrap();
    assert!(a.on_or_before(&later_day));
    assert!(!later_day.on_or_before(&a));
    let later_month = Date::from_ymd_opt(2023, 6, 1).unwrap();
    assert!(a.on_or_before(&later_month));
    assert!(!later_month.on_or_before(&a));
    let later_year = Date::from_ymd_opt(2024, 1, 1).unwrap();
    assert!(a.on_or_before(&later_year));
    assert!(!later_year.on_or_before(&a));
    let before_common_era = Date::from_ymd_opt(-5, 12, 31).unwrap();
    assert!(before_common_era.on_or_before(&a));
    assert!(!a.on_or_before(&before_common_era));
}
