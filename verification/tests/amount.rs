use beancount_core::amount::{Amount, IncompleteAmount};
use beancount_core::currency::is_valid_currency;
use beancount_core::decimal::Decimal;
use beancount_core::error::Error;
use std::cmp::Ordering;

fn dec(s: &str) -> Decimal {
    Decimal::from_str_exact(s).unwrap()
}

fn amount(n: &str, c: &str) -> Amount {
    Amount::new(dec(n), c.to_string())
}

#[test]
fn amounts_of_one_currency_compare_by_number() {
    assert_eq!(
        amount("1.00", "USD").partial_cmp(&amount("2", "USD")),
        Some(Ordering::Less)
    );
    assert_eq!(
        amount("2.0", "USD").partial_cmp(&amount("2", "USD")),
        Some(Ordering::Equal)
    );
    assert_eq!(
        amount("3", "USD").partial_cmp(&amount("2", "USD")),
        Some(Ordering::Greater)
    );
    assert!(amount("1", "USD") < amount("2", "USD"));
}

#[test]
fn amounts_of_different_currencies_do_not_compare() {
    assert_eq!(amount("1", "USD").partial_cmp(&amount("2", "CAD")), None);
    assert_eq!(amount("2", "USD").partial_cmp(&amount("2", "EUR")), None);
    assert!(!(amount("1", "USD") < amount("2", "CAD")));
    assert!(!(amount("1", "USD") > amount("2", "CAD")));
    assert!(!amount("1", "USD").same_currency(&amount("1", "CAD")));
    assert!(amount("1", "USD").same_currency(&amount("5", "USD")));
}

#[test]
fn incomplete_amounts_compare_with_missing_parts() {
    let none = IncompleteAmount::new(None, Some("USD".to_string()));
    let one = IncompleteAmount::new(Some(dec("1")), Some("USD".to_string()));
    let bare = IncompleteAmount::new(Some(dec("1")), None);
    assert_eq!(none.partial_cmp(&one), Some(Ordering::Less));
    assert_eq!(one.partial_cmp(&none), Some(Ordering::Greater));
    assert_eq!(none.partial_cmp(&none), Some(Ordering::Equal));
    assert_eq!(one.partial_cmp(&bare), None);
    assert_eq!(bare.partial_cmp(&bare), Some(Ordering::Equal));
}

#[test]
fn conversion_needs_number_and_currency() {
    let no_num = IncompleteAmount::new(None, Some("USD".to_string()));
    let no_currency = IncompleteAmount::new(Some(dec("1")), None);
    assert_eq!(Amount::try_from(no_num), Err(Error::IncompleteConversion));
    assert_eq!(Amount::try_from(no_currency), Err(Error::IncompleteConversion));
    assert_eq!(
        Amount::try_from(IncompleteAmount::empty()),
        Err(Error::IncompleteConversion)
    );
    let both = IncompleteAmount::new(Some(dec("12.5")), Some("USD".to_string()));
    assert_eq!(Amount::try_from(both), Ok(amount("12.5", "USD")));
}

#[test]
fn conversion_round_trips() {
    let a = amount("12.50", "CAD");
    let incomplete = IncompleteAmount::from(a.clone());
    assert_eq!(
        incomplete,
        IncompleteAmount::new(Some(dec("12.50")), Some("CAD".to_string()))
    );
    assert_eq!(Amount::try_from(incomplete), Ok(a));
}

#[test]
fn amounts_print_number_and_currency() {
    assert_eq!(amount("100", "USD").to_string(), "100 USD");
    assert_eq!(amount("-3492.02", "USD").to_string(), "-3492.02 USD");
    assert_eq!(
        IncompleteAmount::new(Some(dec("5.0")), Some("EUR".to_string())).to_string(),
        "5.0 EUR"
    );
    assert_eq!(IncompleteAmount::new(Some(dec("5.0")), None).to_string(), "5.0");
    assert_eq!(
        IncompleteAmount::new(None, Some("EUR".to_string())).to_string(),
        "0 EUR"
    );
    assert_eq!(IncompleteAmount::empty().to_string(), "0");
}

#[test]
fn currency_names_follow_the_grammar() {
    assert!(is_valid_currency("USD"));
    assert!(is_valid_currency("MSFT"));
    assert!(is_valid_currency("VACHR"));
    assert!(is_valid_currency("A1"));
    assert!(is_valid_currency("NT.TO"));
    assert!(is_valid_currency("A'B_C-D9"));
    assert!(is_valid_currency("ABCDEFGHIJKLMNOPQRSTUVWX"));
    assert!(!is_valid_currency("ABCDEFGHIJKLMNOPQRSTUVWXY"));
    assert!(!is_valid_currency("U"));
    assert!(!is_valid_currency(""));
    assert!(!is_valid_currency("usd"));
    assert!(!is_valid_currency("1USD"));
    assert!(!is_valid_currency("USD-"));
    assert!(!is_valid_currency("US D"));
    assert!(!is_valid_currency("US$"));
}
