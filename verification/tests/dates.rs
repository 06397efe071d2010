use chrono::{Datelike, NaiveDate};
use govscout::dates::{parse_date, Date};

#[test]
fn parse_date_reads_the_day_number() {
    assert_eq!(parse_date("01/01/0001").unwrap().days, 1);
    assert_eq!(parse_date("01/01/1970").unwrap().days, 719_163);
    assert_eq!(parse_date("06/01/2024").unwrap(), Date { days: 739_038 });
}

#[test]
fn parse_date_hands_back_what_it_rejects() {
    let error = parse_date("02/30/2025").unwrap_err();
    assert_eq!(error.input, "02/30/2025");
    assert_eq!(error.message(), "Failed to parse date '02/30/2025'");
}

#[test]
fn format_writes_month_day_year() {
    assert_eq!(Date { days: 719_163 }.format().as_deref(), Some("01/01/1970"));
    assert_eq!(Date { days: 739_038 }.format().as_deref(), Some("06/01/2024"));
    assert_eq!(Date { days: i32::MAX }.format(), None);
    assert_eq!(Date { days: i32::MIN }.format(), None);
}

#[test]
fn format_and_parse_agree() {
    let mut days = NaiveDate::from_ymd_opt(1999, 12, 25).unwrap().num_days_from_ce();
    for _ in 0..400 {
        let date = Date { days };
        let text = date.format().unwrap();
        assert_eq!(text.len(), 10);
        assert_eq!(parse_date(&text).unwrap(), date);
        days += 37;
    }
}

#[test]
fn minus_days_subtracts_day_numbers() {
    let date = parse_date("03/01/2024").unwrap();
    assert_eq!(date.minus_days(1).unwrap().format().as_deref(), Some("02/29/2024"));
    assert_eq!(date.minus_days(90).unwrap().format().as_deref(), Some("12/02/2023"));
    assert_eq!(date.minus_days(0), Some(date));
    assert_eq!(date.minus_days(-1).unwrap().format().as_deref(), Some("03/02/2024"));
    assert_eq!(Date { days: i32::MIN + 5 }.minus_days(6), None);
    assert_eq!(Date { days: i32::MIN + 5 }.minus_days(5), Some(Date { days: i32::MIN }));
    assert_eq!(date.minus_days(i64::MIN), None);
    assert_eq!(date.minus_days(i64::MAX), None);
}

#[test]
fn on_or_before_compares_days() {
    let a = parse_date("12/31/2024").unwrap();
    let b = parse_date("01/01/2025").unwrap();
    assert!(a.on_or_before(&b));
    assert!(a.on_or_before(&a));
    assert!(!b.on_or_before(&a));
}
