use rupee::calendar::Date;
use rupee::commands::analysis_rolling::{
    all_periods, rolling_windows, rolling_windows_checked, Period, RollingError, RollingWindow,
};
use rupee::data_sources::mf_api::PricePoint;

fn ymd(y: i32, m: u32, d: u32) -> Date {
    Date::from_ymd_opt(y, m, d).unwrap()
}

fn point(y: i32, m: u32, d: u32, amount: i64) -> PricePoint {
    PricePoint { date: ymd(y, m, d), amount }
}

#[test]
fn periods_end_a_week_or_months_later() {
    let start = ymd(2024, 1, 31);
    assert_eq!(Period::OneWeek.add_to(start), ymd(2024, 2, 7));
    assert_eq!(Period::TwoWeeks.add_to(start), ymd(2024, 2, 14));
    assert_eq!(Period::OneMonth.add_to(start), ymd(2024, 2, 29));
    assert_eq!(Period::OneQuarter.add_to(start), ymd(2024, 4, 30));
    assert_eq!(Period::SixMonths.add_to(start), ymd(2024, 7, 31));
    assert_eq!(Period::OneYear.add_to(start), ymd(2025, 1, 31));
    assert_eq!(Period::ThreeYears.add_to(start), ymd(2027, 1, 31));
    assert_eq!(Period::FiveYears.add_to(start), ymd(2029, 1, 31));
    let last = Date::from_num_days_from_ce_opt(rupee::calendar::MAX_DAY_NUMBER).unwrap();
    assert!(Period::OneWeek.checked_add_to(last).is_none());
}

#[test]
fn period_labels() {
    let labels: Vec<String> = all_periods().iter().map(|p| p.label()).collect();
    assert_eq!(labels, vec!["1W", "2W", "1M", "3M", "6M", "1Y", "3Y", "5Y"]);
}

#[test]
fn weekly_windows_end_on_the_first_price_after_a_week() {
    let prices = vec![
        point(2024, 1, 1, 100),
        point(2024, 1, 2, 101),
        point(2024, 1, 8, 110),
        point(2024, 1, 9, 111),
        point(2024, 1, 15, 120),
    ];
    let windows = rolling_windows(&prices, &Period::OneWeek).unwrap();
    assert_eq!(
        windows,
        vec![
            RollingWindow { start: 0, end: 2, days: 7 },
            RollingWindow { start: 1, end: 3, days: 7 },
            RollingWindow { start: 2, end: 4, days: 7 },
        ]
    );
    let monthly = rolling_windows(&prices, &Period::OneMonth).unwrap();
    assert!(monthly.is_empty());
}

#[test]
fn windows_skip_gaps_in_the_history() {
    let prices = vec![point(2024, 1, 1, 100), point(2024, 1, 3, 101), point(2024, 1, 20, 130)];
    let windows = rolling_windows(&prices, &Period::OneWeek).unwrap();
    assert_eq!(
        windows,
        vec![RollingWindow { start: 0, end: 2, days: 7 }, RollingWindow { start: 1, end: 2, days: 7 }]
    );
}

#[test]
fn short_histories_are_refused() {
    let prices = vec![point(2024, 1, 1, 100), point(2024, 1, 8, 110)];
    assert_eq!(rolling_windows(&prices, &Period::OneWeek), Err(RollingError::TooFewPrices));
    assert_eq!(RollingError::TooFewPrices.message(), "Cannot calculate stats on very small sets");
    assert_eq!(rolling_windows_checked(&prices, &Period::OneWeek), Some(Err(RollingError::TooFewPrices)));
}

#[test]
fn windows_past_chrono_are_reported() {
    let last = rupee::calendar::MAX_DAY_NUMBER;
    let prices: Vec<PricePoint> = (0..3)
        .map(|k| PricePoint { date: Date::from_num_days_from_ce_opt(last - 2 + k).unwrap(), amount: 1 })
        .collect();
    assert_eq!(rolling_windows_checked(&prices, &Period::OneWeek), None);
}

#[test]
fn monthly_windows_end_on_the_first_price_after_the_month() {
    let prices = vec![
        point(2024, 1, 30, 100),
        point(2024, 1, 31, 101),
        point(2024, 2, 28, 104),
        point(2024, 2, 29, 105),
        point(2024, 3, 1, 106),
        point(2024, 3, 31, 108),
    ];
    let windows = rolling_windows(&prices, &Period::OneMonth).unwrap();
    assert_eq!(
        windows,
        vec![
            RollingWindow { start: 0, end: 3, days: 30 },
            RollingWindow { start: 1, end: 3, days: 29 },
            RollingWindow { start: 2, end: 5, days: 29 },
            RollingWindow { start: 3, end: 5, days: 29 },
        ]
    );
}
