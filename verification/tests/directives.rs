use beancount_core::account::{Account, AccountType};
use beancount_core::amount::Amount;
use beancount_core::booking::Booking;
use beancount_core::date::Date;
use beancount_core::decimal::Decimal;
use beancount_core::directives::{
    Balance, BcOption, Close, Commodity, Custom, Directive, Document, Event, Include, Note, Open,
    Pad, Plugin, Price, Query,
};
use beancount_core::ledger::Ledger;

#[test]
fn it_works() {
    let ledger = Ledger::default();
    assert_eq!(ledger.directives.len(), 0);
}

#[test]
fn new_open_directive() {
    let o = Open::new(
        Date::from_str_unchecked("2024-08-05"),
        Account::from("Assets:US:BofA:Checking"),
    );
    let open = Directive::Open(o);
    let ledger = Ledger::from_directives(vec![open]);
    assert_eq!(ledger.directives.len(), 1);
    println!("{:?}", ledger.directives[0]);
}

#[test]
fn new_note_directive() {
    let n = Note::new(
        Date::from_str_unchecked("2024-08-05"),
        Account::from("Assets:US:BofA:Checking"),
        "Called to confirm wire transfer.".to_string(),
    );

    let note = Directive::Note(n);
    let ledger = Ledger::from_directives(vec![note]);
    assert_eq!(ledger.directives.len(), 1);
    println!("{:?}", ledger.directives[0]);
}

#[test]
fn new_balance_directive() {
    let b = Balance::new(
        Date::from_str_unchecked("2024-08-05"),
        Account::from("Assets:US:BofA:Checking"),
        Amount::new(
            Decimal::from_str_exact("154.20").unwrap(),
            "USD".to_string(),
        ),
    );
    let balance = Directive::Balance(b);
    let ledger = Ledger::from_directives(vec![balance]);
    assert_eq!(ledger.directives.len(), 1);
    println!("{:?}", ledger.directives[0]);
}

#[test]
fn balance_test_display() {
    let balance = Balance::new(
        Date::from_str_unchecked("2016-11-28"),
        Account::from("Liabilities:CreditCard:CapitalOne"),
        Amount::new(Decimal::from_int(100), "USD".to_string()),
    );

    assert_eq!(
        balance.to_string(),
        "2016-11-28 balance Liabilities:CreditCard:CapitalOne 100 USD"
    );
}

#[test]
fn test_display_with_tolerance() {
    let balance = Balance::new(
        Date::from_str_unchecked("2014-12-26"),
        Account::from("Liabilities:US:CreditCard"),
        Amount::new(
            Decimal::from_str_exact("-3492.02").unwrap(),
            "USD".to_string(),
        ),
    );

    assert_eq!(
        balance.to_string(),
        "2014-12-26 balance Liabilities:US:CreditCard -3492.02 USD"
    );
}

#[test]
fn balance_keeps_its_tolerance() {
    let balance = Balance::new(
        Date::from_str_unchecked("2014-12-26"),
        Account::from("Liabilities:US:CreditCard"),
        Amount::new(Decimal::from_int(1), "USD".to_string()),
    )
    .with_tolerance(Decimal::from_str_exact("0.002").unwrap());
    assert_eq!(balance.tolerance, Some(Decimal::from_str_exact("0.002").unwrap()));
    assert_eq!(
        balance.to_string(),
        "2014-12-26 balance Liabilities:US:CreditCard 1 USD"
    );
}

#[test]
fn beancount_option_test_display() {
    let option = BcOption::new("title".to_string(), "Ed's Personal Ledger".to_string());
    assert_eq!(option.to_string(), "option title Ed's Personal Ledger");
}

#[test]
fn option_root_name_change() {
    let assets = BcOption::new("name_assets".to_string(), "Aktiva".to_string());
    assert_eq!(
        assets.root_name_change(),
        Some((AccountType::Assets, "Aktiva".to_string()))
    );
    let liabilities = BcOption::new("name_liabilities".to_string(), "Passiva".to_string());
    assert_eq!(
        liabilities.root_name_change(),
        Some((AccountType::Liabilities, "Passiva".to_string()))
    );
    let equity = BcOption::new("name_equity".to_string(), "Kapital".to_string());
    assert_eq!(
        equity.root_name_change(),
        Some((AccountType::Equity, "Kapital".to_string()))
    );
    let income = BcOption::new("name_income".to_string(), "Ertrag".to_string());
    assert_eq!(
        income.root_name_change(),
        Some((AccountType::Income, "Ertrag".to_string()))
    );
    let expenses = BcOption::new("name_expenses".to_string(), "Aufwand".to_string());
    assert_eq!(
        expenses.root_name_change(),
        Some((AccountType::Expenses, "Aufwand".to_string()))
    );
    let title = BcOption::new("title".to_string(), "Ledger".to_string())
        .with_source("option \"title\" \"Ledger\"".to_string());
    assert_eq!(title.root_name_change(), None);
    assert_eq!(title.source, Some("option \"title\" \"Ledger\"".to_string()));
}

#[test]
fn close_test_display() {
    let close = Close {
        date: Date::from_str_unchecked("2016-11-28"),
        account: Account::from("Liabilities:CreditCard:CapitalOne"),
    };
    assert_eq!(
        close.to_string(),
        "2016-11-28 close Liabilities:CreditCard:CapitalOne"
    );
}

#[test]
fn include_test_display() {
    let inclusion = Include::new("path/to/include/file.beancount".to_string());
    assert_eq!(inclusion.to_string(), "include path/to/include/file.beancount");
}

#[test]
fn open_test_display() {
    let open = Open::new(
        Date::from_str_unchecked("2014-05-01"),
        Account::from("Liabilities:CreditCard:CapitalOne"),
    )
    .with_currencies(vec!["USD".to_string()]);
    assert_eq!(
        open.to_string(),
        "2014-05-01 open Liabilities:CreditCard:CapitalOne USD"
    );
}

#[test]
fn open_display_with_several_or_no_currencies() {
    let account = Account::from("Assets:Cash");
    let date = Date::from_str_unchecked("2014-05-01");
    let open = Open::new(date, account.clone())
        .with_currencies(vec!["USD".to_string(), "CAD".to_string()])
        .with_booking(Booking::Fifo);
    assert_eq!(open.to_string(), "2014-05-01 open Assets:Cash USD CAD");
    assert_eq!(open.booking, Some(Booking::Fifo));
    let bare = Open::new(date, account);
    assert_eq!(bare.to_string(), "2014-05-01 open Assets:Cash ");
    assert_eq!(bare.booking, None);
}

#[test]
fn pad_test_display() {
    let pad = Pad::new(
        Date::from_str_unchecked("2013-11-03"),
        Account::from("Liabilities:CreditCard"),
        Account::from("Assets:US:BofA:Checking"),
    );
    assert_eq!(
        pad.to_string(),
        "2013-11-03 pad Liabilities:CreditCard Assets:US:BofA:Checking"
    );
}

#[test]
fn plugin_test_display() {
    let plugin = Plugin::new("beancount.plugins.module_name".to_string())
        .with_config("configuration data".to_string());
    assert_eq!(
        plugin.to_string(),
        "plugin beancount.plugins.module_name configuration data"
    );
}

#[test]
fn plugin_display_without_configuration() {
    let plugin = Plugin::new("beancount.plugins.module_name".to_string());
    assert_eq!(plugin.to_string(), "plugin beancount.plugins.module_name ");
}

#[test]
fn prices_test_display() {
    let price = Price::new(
        Date::from_str_unchecked("2014-07-09"),
        "HOOL".to_string(),
        Amount::new(
            Decimal::from_str_exact("579.18").unwrap(),
            "USD".to_string(),
        ),
    );
    assert_eq!(price.to_string(), "2014-07-09 price HOOL 579.18 USD");
}

#[test]
fn query_test_display() {
    let query = Query::new(
        Date::from_str_unchecked("2014-07-09"),
        "france-balances".to_string(),
        "SELECT account, sum(position) WHERE 'trip-france-2014' in tags".to_string(),
    );
    assert_eq!(
        query.to_string(),
        r#"2014-07-09 query "france-balances" "SELECT account, sum(position) WHERE 'trip-france-2014' in tags""#
    );
}

#[test]
fn directives_know_their_date_and_priority() {
    let date = Date::from_str_unchecked("2014-07-09");
    let account = Account::from("Assets:Cash");
    let open = Directive::Open(Open::new(date, account.clone()));
    let balance = Directive::Balance(Balance::new(
        date,
        account.clone(),
        Amount::new(Decimal::from_int(1), "USD".to_string()),
    ));
    let close = Directive::Close(Close::new(date, account.clone()));
    let commodity = Directive::Commodity(Commodity::new(date, "USD".to_string()));
    let custom = Directive::Custom(Custom::new(date, "budget".to_string(), vec![]));
    let document = Directive::Document(Document::new(date, account.clone(), "a.pdf".to_string()));
    let event = Directive::Event(Event::new(date, "location".to_string(), "Paris".to_string()));
    let inclusion = Directive::Include(Include::new("other.beancount".to_string()));
    assert_eq!(open.date(), Some(date));
    assert_eq!(balance.date(), Some(date));
    assert_eq!(inclusion.date(), None);
    assert_eq!(Directive::Unsupported.date(), None);
    assert_eq!(open.priority(), 0);
    assert_eq!(balance.priority(), 1);
    assert_eq!(close.priority(), 2);
    assert_eq!(commodity.priority(), 2);
    assert_eq!(custom.priority(), 2);
    assert_eq!(document.priority(), 2);
    assert_eq!(event.priority(), 2);
    assert_eq!(inclusion.sort_key(), -1);
    assert_eq!(Directive::Unsupported.sort_key(), -1);
    let day: i64 = ((2014 * 16 + 7) * 32 + 9) * 4;
    assert_eq!(open.sort_key(), day);
    assert_eq!(balance.sort_key(), day + 1);
    assert_eq!(close.sort_key(), day + 2);
}

#[test]
fn remaining_directives_print_in_the_ledger_syntax() {
    let date = Date::from_str_unchecked("2014-04-10");
    let account = Account::from("Assets:US:BofA:Checking");
    let note = Note::new(
        date,
        account.clone(),
        "Called to confirm wire transfer.".to_string(),
    );
    assert_eq!(
        note.to_string(),
        "2014-04-10 note Assets:US:BofA:Checking \"Called to confirm wire transfer.\""
    );
    let document = Document::new(date, account.clone(), "/statements/april.pdf".to_string());
    assert_eq!(
        document.to_string(),
        "2014-04-10 document Assets:US:BofA:Checking \"/statements/april.pdf\""
    );
    let commodity = Commodity::new(date, "HOOL".to_string());
    assert_eq!(commodity.to_string(), "2014-04-10 commodity HOOL");
    let event = Event::new(date, "location".to_string(), "Paris, France".to_string());
    assert_eq!(
        event.to_string(),
        "2014-04-10 event \"location\" \"Paris, France\""
    );
    let custom = Custom::new(
        date,
        "budget".to_string(),
        vec!["\"weekly\"".to_string(), "45.30 EUR".to_string()],
    );
    assert_eq!(
        custom.to_string(),
        "2014-04-10 custom \"budget\" \"weekly\" 45.30 EUR"
    );
    let bare = Custom::new(date, "budget".to_string(), vec![]);
    assert_eq!(bare.to_string(), "2014-04-10 custom \"budget\"");
    assert_eq!(Directive::Note(note.clone()).to_string(), note.to_string());
    assert_eq!(
        Directive::Close(Close::new(date, account)).to_string(),
        "2014-04-10 close Assets:US:BofA:Checking"
    );
    assert_eq!(
        Directive::Option(BcOption::new("title".to_string(), "Ledger".to_string())).to_string(),
        "option title Ledger"
    );
    assert_eq!(Directive::Unsupported.to_string(), "");
}
