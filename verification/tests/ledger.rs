use beancount_core::account::Account;
use beancount_core::amount::Amount;
use beancount_core::date::Date;
use beancount_core::decimal::Decimal;
use beancount_core::directives::{Balance, BcOption, Close, Directive, Include, Note, Open, Plugin};
use beancount_core::ledger::Ledger;
use beancount_core::transaction::Transaction;

fn txn(date: &str, narration: &str) -> Directive {
    Directive::Transaction(Transaction::new(
        Date::from_str_unchecked(date),
        narration.to_string(),
    ))
}

fn balance(date: &str, account: &str, number: i64) -> Directive {
    Directive::Balance(Balance::new(
        Date::from_str_unchecked(date),
        Account::from(account),
        Amount::new(Decimal::from_int(number), "USD".to_string()),
    ))
}

fn open(date: &str, account: &str) -> Directive {
    Directive::Open(Open::new(Date::from_str_unchecked(date), Account::from(account)))
}

#[test]
fn balances_come_before_transactions_of_the_day() {
    let input = vec![
        txn("2014-02-03", "first"),
        balance("2014-02-03", "Assets:Cash", 1),
        txn("2014-02-03", "second"),
        balance("2014-02-03", "Assets:Bank", 2),
    ];
    let sorted = Ledger::from_directives(input).sort();
    assert_eq!(
        sorted.directives,
        vec![
            balance("2014-02-03", "Assets:Cash", 1),
            balance("2014-02-03", "Assets:Bank", 2),
            txn("2014-02-03", "first"),
            txn("2014-02-03", "second"),
        ]
    );
    assert!(sorted.check_sorted());
}

#[test]
fn balances_come_first_in_any_input_order() {
    let a = vec![
        balance("2014-02-03", "Assets:Cash", 1),
        txn("2014-02-03", "deposit"),
    ];
    let b = vec![
        txn("2014-02-03", "deposit"),
        balance("2014-02-03", "Assets:Cash", 1),
    ];
    let sorted_a = Ledger::from_directives(a).sort();
    let sorted_b = Ledger::from_directives(b).sort();
    assert_eq!(sorted_a, sorted_b);
    assert!(matches!(sorted_a.directives[0], Directive::Balance(_)));
    assert!(matches!(sorted_a.directives[1], Directive::Transaction(_)));
}

#[test]
fn ledger_sorts_by_day_then_by_priority() {
    let input = vec![
        txn("2014-02-04", "later"),
        Directive::Close(Close::new(
            Date::from_str_unchecked("2014-02-03"),
            Account::from("Assets:Old"),
        )),
        txn("2014-02-03", "deposit"),
        Directive::Include(Include::new("other.beancount".to_string())),
        balance("2014-02-03", "Assets:Cash", 1),
        open("2014-02-03", "Assets:Cash"),
        Directive::Note(Note::new(
            Date::from_str_unchecked("2013-12-31"),
            Account::from("Assets:Cash"),
            "year end".to_string(),
        )),
        Directive::Option(BcOption::new("title".to_string(), "Ledger".to_string())),
        open("10000-01-01", "Assets:Far"),
    ];
    let ledger = Ledger::from_directives(input);
    assert!(!ledger.check_sorted());
    assert_eq!(ledger.undated(), vec![3, 7]);
    let sorted = ledger.sort();
    assert!(sorted.check_sorted());
    assert_eq!(sorted.undated(), vec![0, 1]);
    assert_eq!(
        sorted.directives,
        vec![
            Directive::Include(Include::new("other.beancount".to_string())),
            Directive::Option(BcOption::new("title".to_string(), "Ledger".to_string())),
            Directive::Note(Note::new(
                Date::from_str_unchecked("2013-12-31"),
                Account::from("Assets:Cash"),
                "year end".to_string(),
            )),
            open("2014-02-03", "Assets:Cash"),
            balance("2014-02-03", "Assets:Cash", 1),
            Directive::Close(Close::new(
                Date::from_str_unchecked("2014-02-03"),
                Account::from("Assets:Old"),
            )),
            txn("2014-02-03", "deposit"),
            txn("2014-02-04", "later"),
            open("10000-01-01", "Assets:Far"),
        ]
    );
}

#[test]
fn ledger_sort_keeps_every_directive() {
    let input = vec![
        txn("2014-02-03", "a"),
        txn("2014-02-03", "a"),
        Directive::Plugin(Plugin::new("module".to_string())),
        Directive::Unsupported,
        txn("2014-02-01", "b"),
    ];
    let sorted = Ledger::from_directives(input.clone()).sort();
    assert_eq!(sorted.directives.len(), input.len());
    for d in input.iter() {
        let before = input.iter().filter(|x| *x == d).count();
        let after = sorted.directives.iter().filter(|x| *x == d).count();
        assert_eq!(before, after);
    }
    assert_eq!(Ledger::new().sort().directives.len(), 0);
}

#[test]
fn ledger_push_appends() {
    let mut ledger = Ledger::new();
    ledger.push(txn("2014-02-03", "a"));
    ledger.push(open("2014-02-03", "Assets:Cash"));
    assert_eq!(ledger.directives.len(), 2);
    assert!(matches!(ledger.directives[1], Directive::Open(_)));
    assert!(!ledger.check_sorted());
}
