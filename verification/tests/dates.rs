use paper_core::dates::{Date, DateFilter};

fn d(y: i32, m: u32, day: u32) -> Option<Date> {
    Some(Date::from_ymd(y, m, day).expect("valid"))
}

#[test]
fn date_filter_at_least_a_year() {
    let f = DateFilter::parse(">=2025").expect("parse");
    assert_eq!(f.after, d(2025, 1, 1));
    assert_eq!(f.before, None);
}

#[test]
fn date_filter_year_range() {
    let f = DateFilter::parse(">2023 <2025").expect("parse");
    assert_eq!(f.after, d(2023, 1, 1));
    assert_eq!(f.before, d(2025, 1, 1));
}

#[test]
fn date_filter_month_and_day_periods() {
    let f = DateFilter::parse("<=2024-02").expect("parse");
    assert_eq!(f.after, None);
    assert_eq!(f.before, d(2024, 3, 1));
    let f = DateFilter::parse("  >2024-02-28   <=2024-12  ").expect("parse");
    assert_eq!(f.after, d(2024, 2, 28));
    assert_eq!(f.before, d(2025, 1, 1));
    let f = DateFilter::parse("<=2023-02").expect("parse");
    assert_eq!(f.before, d(2023, 3, 1));
}

#[test]
fn date_filter_greater_than_starts_the_period() {
    let a = DateFilter::parse(">2023-06").expect("parse");
    let b = DateFilter::parse(">=2023-06").expect("parse");
    assert_eq!(a, b);
    assert_eq!(a.after, d(2023, 6, 1));
    let c = DateFilter::parse(">=2023-06-15").expect("parse");
    let e = DateFilter::parse("<2023-06-15").expect("parse");
    assert_eq!(c.after, e.before);
    let f = DateFilter::parse("<=2023-06").expect("parse");
    assert_eq!(f.before, d(2023, 7, 1));
}

#[test]
fn date_filter_errors() {
    assert_eq!(
        DateFilter::parse("2025").unwrap_err(),
        "expected '>', '>=', '<', or '<=' prefix, got: 2025"
    );
    assert_eq!(
        DateFilter::parse(">=20").unwrap_err(),
        "invalid date format '20': use YYYY, YYYY-MM, or YYYY-MM-DD"
    );
    assert_eq!(
        DateFilter::parse(">=2025-13").unwrap_err(),
        "invalid date '2025-13': input is out of range"
    );
    assert_eq!(DateFilter::parse(">=2024 >2025").unwrap_err(), "duplicate lower bound");
    assert_eq!(DateFilter::parse("<2024 <=2025").unwrap_err(), "duplicate upper bound");
    assert_eq!(DateFilter::parse("   ").unwrap_err(), "empty date filter");
    assert_eq!(DateFilter::parse("").unwrap_err(), "empty date filter");
    assert_eq!(
        DateFilter::parse(">=2025 <2024").unwrap_err(),
        "lower bound 2025-01-01 is not before upper bound 2024-01-01"
    );
    assert_eq!(
        DateFilter::parse(">=2024 <2024").unwrap_err(),
        "lower bound 2024-01-01 is not before upper bound 2024-01-01"
    );
}

#[test]
fn dates_from_parts() {
    assert!(Date::from_ymd(2024, 2, 29).is_some());
    assert!(Date::from_ymd(2023, 2, 29).is_none());
    assert!(Date::from_ymd(1900, 2, 29).is_none());
    assert!(Date::from_ymd(2000, 2, 29).is_some());
    assert!(Date::from_ymd(262143, 1, 1).is_none());
    let a = Date::from_ymd(2024, 1, 31).unwrap();
    let b = Date::from_ymd(2024, 2, 1).unwrap();
    assert!(a.is_before(&b));
    assert!(!b.is_before(&a));
    assert!(!a.is_before(&a));
}

#[test]
fn default_date_filter_is_open() {
    let f = DateFilter::default();
    assert!(f.after.is_none() && f.before.is_none());
}
