use chrono::{Datelike, NaiveDate};
use market_data::calendar::{latest_trading_date_from, trading_dates_in_range, TradeDate, Weekday};
use market_data::nse;

fn date(year: i32, month: u32, day: u32) -> TradeDate {
    TradeDate::from_ymd_opt(year, month, day).unwrap()
}

#[test]
fn test_trading_dates_exclude_weekends() {
    let nse_client = nse::NseClient::new();

    let from = TradeDate::from_ymd_opt(2025, 1, 10).unwrap();
    let to = TradeDate::from_ymd_opt(2025, 1, 14).unwrap();

    let dates = nse_client.get_trading_dates_in_range(from, to);

    assert_eq!(dates.len(), 3);
    assert!(dates.contains(&TradeDate::from_ymd_opt(2025, 1, 10).unwrap()));
    assert!(dates.contains(&TradeDate::from_ymd_opt(2025, 1, 13).unwrap()));
    assert!(dates.contains(&TradeDate::from_ymd_opt(2025, 1, 14).unwrap()));
    assert!(!dates.contains(&TradeDate::from_ymd_opt(2025, 1, 11).unwrap()));
    assert!(!dates.contains(&TradeDate::from_ymd_opt(2025, 1, 12).unwrap()));
}

#[test]
fn test_bhavcopy_url_construction() {
    let date = TradeDate::from_ymd_opt(2025, 1, 15).unwrap();

    assert_eq!(date.day(), 15);
    assert_eq!(date.month(), 1);
    assert_eq!(date.year(), 2025);
}

#[test]
fn range_is_ascending_and_inclusive() {
    let dates = trading_dates_in_range(date(2024, 2, 26), date(2024, 3, 4));
    assert_eq!(
        dates,
        vec![
            date(2024, 2, 26),
            date(2024, 2, 27),
            date(2024, 2, 28),
            date(2024, 2, 29),
            date(2024, 3, 1),
            date(2024, 3, 4),
        ]
    );
}

#[test]
fn range_of_one_day() {
    assert_eq!(trading_dates_in_range(date(2025, 1, 15), date(2025, 1, 15)), vec![date(2025, 1, 15)]);
    assert_eq!(trading_dates_in_range(date(2025, 1, 11), date(2025, 1, 11)), vec![]);
    assert_eq!(trading_dates_in_range(date(2025, 1, 11), date(2025, 1, 12)), vec![]);
}

#[test]
fn range_with_ends_swapped_is_empty() {
    assert_eq!(trading_dates_in_range(date(2025, 1, 14), date(2025, 1, 10)), vec![]);
}

#[test]
fn range_crosses_the_year_end() {
    let dates = trading_dates_in_range(date(2024, 12, 30), date(2025, 1, 2));
    assert_eq!(dates, vec![date(2024, 12, 30), date(2024, 12, 31), date(2025, 1, 1), date(2025, 1, 2)]);
}

#[test]
fn range_ends_at_the_last_date() {
    let dates = trading_dates_in_range(date(262142, 12, 25), date(262142, 12, 31));
    let expected: Vec<TradeDate> = (25..=31)
        .filter(|d| {
            let weekday = NaiveDate::from_ymd_opt(262142, 12, *d).unwrap().weekday();
            weekday != chrono::Weekday::Sat && weekday != chrono::Weekday::Sun
        })
        .map(|d| date(262142, 12, d))
        .collect();
    assert_eq!(dates, expected);
    assert!(date(262142, 12, 31).succ_opt().is_none());
}

#[test]
fn range_agrees_with_a_day_by_day_walk() {
    let from = NaiveDate::from_ymd_opt(2023, 11, 20).unwrap();
    let to = NaiveDate::from_ymd_opt(2024, 3, 10).unwrap();
    let mut expected = Vec::new();
    let mut current = from;
    while current <= to {
        if current.weekday() != chrono::Weekday::Sat && current.weekday() != chrono::Weekday::Sun {
            expected.push(date(current.year(), current.month(), current.day()));
        }
        current = current.succ_opt().unwrap();
    }
    assert_eq!(trading_dates_in_range(date(2023, 11, 20), date(2024, 3, 10)), expected);
    assert_eq!(expected.len(), 80);
}

#[test]
fn dates_exist_exactly_where_the_calendar_has_them() {
    assert!(TradeDate::from_ymd_opt(2024, 2, 29).is_some());
    assert!(TradeDate::from_ymd_opt(2023, 2, 29).is_none());
    assert!(TradeDate::from_ymd_opt(1900, 2, 29).is_none());
    assert!(TradeDate::from_ymd_opt(2000, 2, 29).is_some());
    assert!(TradeDate::from_ymd_opt(-4, 2, 29).is_some());
    assert!(TradeDate::from_ymd_opt(2023, 4, 31).is_none());
    assert!(TradeDate::from_ymd_opt(2023, 0, 1).is_none());
    assert!(TradeDate::from_ymd_opt(2023, 13, 1).is_none());
    assert!(TradeDate::from_ymd_opt(2023, 1, 0).is_none());
    assert!(TradeDate::from_ymd_opt(2023, 1, 32).is_none());
    assert!(TradeDate::from_ymd_opt(262142, 12, 31).is_some());
    assert!(TradeDate::from_ymd_opt(262143, 1, 1).is_none());
    assert!(TradeDate::from_ymd_opt(-262143, 1, 1).is_some());
    assert!(TradeDate::from_ymd_opt(-262144, 12, 31).is_none());
    assert_eq!(NaiveDate::MAX, NaiveDate::from_ymd_opt(262142, 12, 31).unwrap());
    assert_eq!(NaiveDate::MIN, NaiveDate::from_ymd_opt(-262143, 1, 1).unwrap());
}

#[test]
fn dates_agree_with_chrono_on_existence() {
    for year in [-262143, -401, -400, -100, -4, -1, 0, 1, 4, 100, 400, 1900, 2000, 2023, 2024, 262142] {
        for month in 0..=13u32 {
            for day in 0..=32u32 {
                assert_eq!(
                    TradeDate::from_ymd_opt(year, month, day).is_some(),
                    NaiveDate::from_ymd_opt(year, month, day).is_some(),
                    "{year}-{month}-{day}"
                );
            }
        }
    }
}

#[test]
fn successor_and_predecessor_follow_the_calendar() {
    assert_eq!(date(2025, 1, 31).succ_opt(), Some(date(2025, 2, 1)));
    assert_eq!(date(2024, 2, 28).succ_opt(), Some(date(2024, 2, 29)));
    assert_eq!(date(2023, 2, 28).succ_opt(), Some(date(2023, 3, 1)));
    assert_eq!(date(2024, 12, 31).succ_opt(), Some(date(2025, 1, 1)));
    assert_eq!(date(2025, 1, 1).pred_opt(), Some(date(2024, 12, 31)));
    assert_eq!(date(2024, 3, 1).pred_opt(), Some(date(2024, 2, 29)));
    assert_eq!(date(2025, 6, 15).pred_opt(), Some(date(2025, 6, 14)));
    assert_eq!(date(-262143, 1, 1).pred_opt(), None);
    assert_eq!(date(262142, 12, 31).succ_opt(), None);
}

#[test]
fn weekdays_of_known_dates() {
    assert_eq!(date(2025, 1, 10).weekday(), Weekday::Fri);
    assert_eq!(date(2025, 1, 11).weekday(), Weekday::Sat);
    assert_eq!(date(2025, 1, 12).weekday(), Weekday::Sun);
    assert_eq!(date(2025, 1, 13).weekday(), Weekday::Mon);
    assert_eq!(date(2015, 9, 8).weekday(), Weekday::Tue);
    assert_eq!(date(-308, 3, 14).weekday(), Weekday::Fri);
    assert_eq!(date(1, 1, 1).weekday(), Weekday::Mon);
    assert_eq!(date(-262143, 1, 1).weekday(), Weekday::Thu);
    assert!(Weekday::Sat.is_weekend());
    assert!(Weekday::Sun.is_weekend());
    assert!(!Weekday::Fri.is_weekend());
    assert!(!Weekday::Mon.is_weekend());
}

fn day_number(year: i64, month: i64, day: i64) -> i64 {
    let leap = year.rem_euclid(4) == 0 && (year.rem_euclid(100) != 0 || year.rem_euclid(400) == 0);
    let before = [0, 31, 59, 90, 120, 151, 181, 212, 243, 273, 304, 334][(month - 1) as usize];
    let p = year - 1;
    365 * p + p.div_euclid(4) - p.div_euclid(100) + p.div_euclid(400)
        + before
        + if leap && month > 2 { 1 } else { 0 }
        + day
}

#[test]
fn weekday_is_the_day_number_modulo_seven() {
    let names = [
        Weekday::Mon,
        Weekday::Tue,
        Weekday::Wed,
        Weekday::Thu,
        Weekday::Fri,
        Weekday::Sat,
        Weekday::Sun,
    ];
    for year in [-262143, -40001, -401, -400, -101, -100, -5, -4, -1, 0, 1, 3, 4, 99, 100, 399, 400, 1899, 1900, 1999, 2000, 2024, 2025, 2100, 99999, 262142] {
        for month in 1..=12u32 {
            for day in 1..=31u32 {
                let Some(d) = TradeDate::from_ymd_opt(year, month, day) else { continue };
                let number = day_number(year as i64, month as i64, day as i64);
                assert_eq!(
                    d.weekday(),
                    names[(number - 1).rem_euclid(7) as usize],
                    "{year}-{month}-{day}"
                );
                assert_eq!(
                    number,
                    NaiveDate::from_ymd_opt(year, month, day).unwrap().num_days_from_ce() as i64
                );
            }
        }
    }
}

#[test]
fn latest_trading_day_steps_back_over_the_weekend() {
    assert_eq!(latest_trading_date_from(date(2025, 1, 10)), date(2025, 1, 10));
    assert_eq!(latest_trading_date_from(date(2025, 1, 11)), date(2025, 1, 10));
    assert_eq!(latest_trading_date_from(date(2025, 1, 12)), date(2025, 1, 10));
    assert_eq!(latest_trading_date_from(date(2025, 1, 13)), date(2025, 1, 13));
    assert_eq!(latest_trading_date_from(date(2025, 3, 2)), date(2025, 2, 28));
    assert_eq!(latest_trading_date_from(date(2023, 1, 1)), date(2022, 12, 30));
    assert_eq!(latest_trading_date_from(date(-262143, 1, 1)), date(-262143, 1, 1));
    assert_eq!(latest_trading_date_from(date(-262143, 1, 4)), date(-262143, 1, 2));
}

#[test]
fn latest_trading_date_is_a_weekday_not_after_today() {
    let client = nse::NseClient::new();
    let latest = client.get_latest_trading_date();
    let today = TradeDate::today();
    assert!(!latest.weekday().is_weekend());
    assert!(latest.is_on_or_before(&today));
    assert_eq!(latest, latest_trading_date_from(today));
}

#[test]
fn order_of_dates() {
    assert!(date(2025, 1, 10).is_on_or_before(&date(2025, 1, 10)));
    assert!(date(2025, 1, 10).is_on_or_before(&date(2025, 1, 11)));
    assert!(date(2024, 12, 31).is_on_or_before(&date(2025, 1, 1)));
    assert!(date(2025, 1, 31).is_on_or_before(&date(2025, 2, 1)));
    assert!(!date(2025, 2, 1).is_on_or_before(&date(2025, 1, 31)));
    assert!(!date(2025, 1, 1).is_on_or_before(&date(2024, 12, 31)));
    assert!(date(-1, 12, 31).is_on_or_before(&date(0, 1, 1)));
}

#[test]
fn iso_dates_parse() {
    assert_eq!(TradeDate::parse_iso("2025-01-15"), Some(date(2025, 1, 15)));
    assert_eq!(TradeDate::parse_iso("2024-02-29"), Some(date(2024, 2, 29)));
    assert_eq!(TradeDate::parse_iso("2023-02-29"), None);
    assert_eq!(TradeDate::parse_iso("2025-13-01"), None);
    assert_eq!(TradeDate::parse_iso("15-01-2025"), None);
    assert_eq!(TradeDate::parse_iso("today"), None);
    assert_eq!(TradeDate::parse_iso(""), None);
    assert_eq!(TradeDate::parse_iso("2025-01-15 "), None);
}

#[test]
fn parts_name_a_date_only_when_valid() {
    assert_eq!(TradeDate::from_parts(Some((2025, 1, 15))), Some(date(2025, 1, 15)));
    assert_eq!(TradeDate::from_parts(Some((2025, 2, 30))), None);
    assert_eq!(TradeDate::from_parts(None), None);
}

#[test]
fn day_first_text() {
    assert_eq!(date(2025, 1, 15).format_day_month_year(), "15-01-2025");
    assert_eq!(date(2025, 12, 5).format_day_month_year(), "05-12-2025");
    assert_eq!(date(987, 3, 9).format_day_month_year(), "09-03-0987");
    assert_eq!(date(0, 3, 9).format_day_month_year(), "09-03-0000");
    assert_eq!(date(12345, 3, 9).format_day_month_year(), "09-03-+12345");
    assert_eq!(date(-5, 3, 9).format_day_month_year(), "09-03--0005");
    assert_eq!(date(-12345, 3, 9).format_day_month_year(), "09-03--12345");
}
