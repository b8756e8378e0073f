use beancount_core::date::Date;
use std::cmp::Ordering;

#[test]
fn test_date_from_chrono() {
    assert_eq!(
        Date::from_naive_date(&chrono::NaiveDate::from_ymd_opt(2020, 05, 05).unwrap()),
        Some(Date::from_str_unchecked("2020-05-05"))
    );
}

#[test]
fn date_from_chrono_needs_a_year_of_four_digits() {
    assert_eq!(
        Date::from_naive_date(&chrono::NaiveDate::from_ymd_opt(-308, 3, 14).unwrap()),
        None
    );
    assert_eq!(
        Date::from_naive_date(&chrono::NaiveDate::from_ymd_opt(12345, 12, 31).unwrap()),
        None
    );
    assert_eq!(
        Date::from_naive_date(&chrono::NaiveDate::from_ymd_opt(9999, 12, 31).unwrap()),
        Date::from_ymd(9999, 12, 31)
    );
    assert_eq!(
        Date::from_naive_date(&chrono::NaiveDate::from_ymd_opt(33, 4, 3).unwrap()),
        Date::from_ymd(33, 4, 3)
    );
}

#[test]
fn date_parses_dashes_and_slashes() {
    let d = Date::from_str_unchecked("2014-02-03");
    assert_eq!((d.year(), d.month(), d.day()), (2014, 2, 3));
    assert_eq!(Date::parse("2014/02/03"), Some(d));
    assert_eq!(Date::from_string_unchecked("2014-02-03".to_string()), d);
    assert_eq!(Date::from_cow_unchecked("2014-02-03"), d);
    assert_eq!(Date::parse("43020-01-01"), Date::from_ymd(43020, 1, 1));
}

#[test]
fn date_rejects_what_is_no_date() {
    assert_eq!(Date::parse(""), None);
    assert_eq!(Date::parse("2014-2-3"), None);
    assert_eq!(Date::parse("14-02-03"), None);
    assert_eq!(Date::parse("2014-02-03 "), None);
    assert_eq!(Date::parse("2014.02.03"), None);
    assert_eq!(Date::parse("2014-13-01"), None);
    assert_eq!(Date::parse("2014-00-10"), None);
    assert_eq!(Date::parse("2014-04-31"), None);
    assert_eq!(Date::parse("2014-04-00"), None);
    assert_eq!(Date::parse("2014-02-29"), None);
    assert_eq!(Date::parse("2100-02-29"), None);
    assert_eq!(Date::parse("20x4-02-03"), None);
    assert_eq!(Date::parse("1234567890-01-01"), None);
    assert!(Date::parse("2016-02-29").is_some());
    assert!(Date::parse("2000-02-29").is_some());
    assert!(Date::parse("999999999-12-31").is_some());
}

#[test]
fn date_from_ymd_checks_the_calendar() {
    assert!(Date::from_ymd(2024, 2, 29).is_some());
    assert!(Date::from_ymd(2023, 2, 29).is_none());
    assert!(Date::from_ymd(2023, 12, 31).is_some());
    assert!(Date::from_ymd(2023, 11, 31).is_none());
    assert!(Date::from_ymd(2023, 0, 1).is_none());
    assert!(Date::from_ymd(2023, 13, 1).is_none());
    assert!(Date::from_ymd(2023, 1, 0).is_none());
    assert!(Date::from_ymd(1000000000, 1, 1).is_none());
}

#[test]
fn date_prints_with_leading_zeros() {
    assert_eq!(Date::from_str_unchecked("2016-11-28").to_string(), "2016-11-28");
    assert_eq!(Date::from_str_unchecked("2014/05/01").to_string(), "2014-05-01");
    assert_eq!(Date::from_ymd(7, 1, 9).unwrap().to_string(), "0007-01-09");
    assert_eq!(Date::from_ymd(43020, 10, 10).unwrap().to_string(), "43020-10-10");
    assert_eq!(Date::from_ymd(1000, 1, 1).unwrap().to_string(), "1000-01-01");
    assert_eq!(Date::from_ymd(999, 1, 1).unwrap().to_string(), "0999-01-01");
}

#[test]
fn date_converts_into_a_string() {
    let s: String = String::from(Date::from_str_unchecked("2016/11/28"));
    assert_eq!(s, "2016-11-28");
    let t: String = Date::from_str_unchecked("2016-11-28").into();
    assert_eq!(t, "2016-11-28");
}

#[test]
fn dates_order_by_calendar_value() {
    let past = Date::from_str_unchecked("2020-01-01");
    let later = Date::from_str_unchecked("43020-01-01");
    let old = Date::from_str_unchecked("9999-12-31");
    assert!(later > past);
    assert!(later > old);
    assert!(old.is_before(&later));
    assert!(!later.is_before(&old));
    assert!(!past.is_before(&past));
    assert_eq!(past.partial_cmp(&later), Some(Ordering::Less));
    assert_eq!(past.partial_cmp(&past), Some(Ordering::Equal));
    assert_eq!(later.cmp(&past), Ordering::Greater);
    assert!(Date::from_str_unchecked("2020-01-31") < Date::from_str_unchecked("2020-02-01"));
    assert!(Date::from_str_unchecked("2020-02-01") < Date::from_str_unchecked("2020-02-02"));
    assert!(past.ordinal() < later.ordinal());
}
