use rupee::calendar::{Date, MAX_DAY_NUMBER, MIN_DAY_NUMBER};
use rupee::commands::analysis_rolling::Period;
use rupee::commands::analysis_prepare::{
    import_range, next_trading_day, trading_days, AnalysisPrepareArgs,
};

fn ymd(y: i32, m: u32, d: u32) -> Date {
    Date::from_ymd_opt(y, m, d).unwrap()
}

#[test]
fn day_numbers_follow_chrono() {
    assert_eq!(ymd(1, 1, 1).num_days_from_ce(), 1);
    assert_eq!(ymd(2024, 1, 1).num_days_from_ce(), 738886);
    assert!(Date::from_ymd_opt(2023, 2, 29).is_none());
    assert!(Date::from_num_days_from_ce_opt(MAX_DAY_NUMBER).is_some());
    assert!(Date::from_num_days_from_ce_opt(MAX_DAY_NUMBER + 1).is_none());
    assert!(Date::from_num_days_from_ce_opt(MIN_DAY_NUMBER).is_some());
    assert!(Date::from_num_days_from_ce_opt(MIN_DAY_NUMBER - 1).is_none());
}

#[test]
fn chrono_range_ends_where_stated() {
    let last = Date::from_num_days_from_ce_opt(MAX_DAY_NUMBER).unwrap();
    assert_eq!(last, ymd(262142, 12, 31));
    let first = Date::from_num_days_from_ce_opt(MIN_DAY_NUMBER).unwrap();
    assert_eq!(first, ymd(-262143, 1, 1));
    assert!(last.succ_opt().is_none());
    assert!(last.checked_add_days(1).is_none());
}

#[test]
fn weekdays_count_from_monday() {
    // 2024-01-01 was a Monday, 2024-01-07 a Sunday.
    assert_eq!(ymd(2024, 1, 1).weekday_from_monday(), 0);
    assert_eq!(ymd(2024, 1, 7).weekday_from_monday(), 6);
    assert_eq!(ymd(1, 1, 1).weekday_from_monday(), 0);
}

#[test]
fn month_arithmetic_clamps_to_month_end() {
    assert_eq!(ymd(2024, 1, 31).checked_add_months(1), Some(ymd(2024, 2, 29)));
    assert_eq!(ymd(2023, 1, 31).checked_add_months(1), Some(ymd(2023, 2, 28)));
    assert_eq!(ymd(2024, 1, 15).checked_add_months(0), Some(ymd(2024, 1, 15)));
    assert_eq!(ymd(2024, 1, 15).checked_add_months(60), Some(ymd(2029, 1, 15)));
    assert_eq!(ymd(2024, 1, 15).checked_add_days(14), Some(ymd(2024, 1, 29)));
}

#[test]
fn dates_parse_and_format() {
    assert_eq!(Date::parse_from_str("05/01/2024", "%d/%m/%Y"), Ok(ymd(2024, 1, 5)));
    assert_eq!(Date::parse_from_str("31-12-2023", "%d-%m-%Y"), Ok(ymd(2023, 12, 31)));
    assert_eq!(
        Date::parse_from_str("2024-01-05", "%d/%m/%Y"),
        Err("input contains invalid characters".to_string())
    );
    assert_eq!(Date::parse_from_str("31/02/2024", "%d/%m/%Y"), Err("input is out of range".to_string()));
    assert_eq!(ymd(2024, 1, 5).format_day_month_year(), "05-Jan-2024");
    assert!(ymd(2024, 1, 5).is_before(&ymd(2024, 1, 6)));
    assert!(!ymd(2024, 1, 6).is_before(&ymd(2024, 1, 6)));
    assert_eq!(ymd(2024, 1, 1).days_until(&ymd(2025, 1, 1)), 366);
}

#[test]
fn next_trading_day_skips_sunday() {
    // Friday to Saturday, Saturday to Monday.
    assert_eq!(next_trading_day(ymd(2024, 1, 5)), Ok(ymd(2024, 1, 6)));
    assert_eq!(next_trading_day(ymd(2024, 1, 6)), Ok(ymd(2024, 1, 8)));
    assert_eq!(next_trading_day(ymd(2024, 1, 7)), Ok(ymd(2024, 1, 8)));
    let last = Date::from_num_days_from_ce_opt(MAX_DAY_NUMBER).unwrap();
    assert!(next_trading_day(last).is_err());
    assert_eq!(next_trading_day(last).unwrap_err().message(), "Date overflow");
}

#[test]
fn trading_days_cover_the_range_but_sundays() {
    let days = trading_days(ymd(2024, 1, 5), ymd(2024, 1, 9));
    assert_eq!(days, vec![ymd(2024, 1, 5), ymd(2024, 1, 6), ymd(2024, 1, 8), ymd(2024, 1, 9)]);
    // The first day is kept even when it is a Sunday.
    let days = trading_days(ymd(2024, 1, 7), ymd(2024, 1, 8));
    assert_eq!(days, vec![ymd(2024, 1, 7), ymd(2024, 1, 8)]);
    assert!(trading_days(ymd(2024, 1, 9), ymd(2024, 1, 8)).is_empty());
    assert_eq!(trading_days(ymd(2024, 1, 9), ymd(2024, 1, 9)), vec![ymd(2024, 1, 9)]);
    let year = trading_days(ymd(2024, 1, 1), ymd(2024, 12, 31));
    assert_eq!(year.len(), 366 - 52);
    assert!(year.iter().all(|d| d.weekday_from_monday() != 6));
}

#[test]
fn trading_days_stop_at_the_end_of_chrono() {
    let last = Date::from_num_days_from_ce_opt(MAX_DAY_NUMBER).unwrap();
    let before = Date::from_num_days_from_ce_opt(MAX_DAY_NUMBER - 1).unwrap();
    let days = trading_days(before, last);
    assert!(days.len() >= 1 && days.len() <= 2);
    assert_eq!(days[0], before);
}

#[test]
fn import_range_defaults() {
    let today = ymd(2025, 3, 1);
    let args = AnalysisPrepareArgs { start: None, end: None };
    assert_eq!(import_range(&args, today), Some((ymd(2024, 1, 1), today)));
    let args = AnalysisPrepareArgs { start: Some(ymd(2024, 6, 1)), end: Some(ymd(2024, 6, 30)) };
    assert_eq!(import_range(&args, today), Some((ymd(2024, 6, 1), ymd(2024, 6, 30))));
}

#[test]
fn later_starts_never_end_earlier() {
    let jan30 = Period::OneMonth.add_to(ymd(2024, 1, 30));
    let jan31 = Period::OneMonth.add_to(ymd(2024, 1, 31));
    let feb01 = Period::OneMonth.add_to(ymd(2024, 2, 1));
    assert_eq!(jan30, ymd(2024, 2, 29));
    assert_eq!(jan31, ymd(2024, 2, 29));
    assert_eq!(feb01, ymd(2024, 3, 1));
}
