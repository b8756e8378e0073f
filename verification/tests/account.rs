use beancount_core::account::{Account, AccountType, RootNames};
use beancount_core::error::Error;

#[test]
fn test_default_name() {
    assert_eq!(AccountType::Assets.default_name(), "Assets");
    assert_eq!(AccountType::Liabilities.default_name(), "Liabilities");
    assert_eq!(AccountType::Equity.default_name(), "Equity");
    assert_eq!(AccountType::Income.default_name(), "Income");
    assert_eq!(AccountType::Expenses.default_name(), "Expenses");
}

#[test]
fn test_new_account() {
    let account = Account::new(AccountType::Assets).with_parts(vec![
        "US".to_string(),
        "BofA".to_string(),
        "Checking".to_string(),
    ]);
    assert_eq!(account.account_type, AccountType::Assets);
    assert_eq!(
        account.parts,
        vec!["US".to_string(), "BofA".to_string(), "Checking".to_string()]
    );
}

#[test]
fn test_new_account_with_default_parts() {
    let account = Account::new(AccountType::Assets);
    assert_eq!(account.account_type, AccountType::Assets);
    assert_eq!(account.parts, Vec::<String>::new());
}

#[test]
fn test_account_type_to_str() {
    let res = AccountType::Assets.to_string();
    assert_eq!(res, "Assets");
}

#[test]
fn test_account_to_str() {
    let account = Account::new(AccountType::Assets).with_parts(vec![
        "US".to_string(),
        "BofA".to_string(),
        "Checking".to_string(),
    ]);
    assert_eq!(account.to_string(), "Assets:US:BofA:Checking");

    let account = Account::new(AccountType::Assets);
    assert_eq!(account.to_string(), "Assets");
}

#[test]
fn account_from_name_round_trips() {
    assert_eq!(
        Account::from("Assets:US:BofA:Checking").to_string(),
        "Assets:US:BofA:Checking"
    );
    assert_eq!(Account::from("Assets").to_string(), "Assets");
}

#[test]
fn account_from_name_splits_type_and_parts() {
    let account = Account::from("Liabilities:CA:RBC:CreditCard");
    assert_eq!(account.account_type, AccountType::Liabilities);
    assert_eq!(
        account.parts,
        vec!["CA".to_string(), "RBC".to_string(), "CreditCard".to_string()]
    );
}

#[test]
fn account_parse_keeps_empty_parts() {
    let account = Account::parse("Income::Salary:").unwrap();
    assert_eq!(account.account_type, AccountType::Income);
    assert_eq!(
        account.parts,
        vec!["".to_string(), "Salary".to_string(), "".to_string()]
    );
    assert_eq!(account.to_string(), "Income::Salary:");
}

#[test]
fn account_parse_rejects_unknown_root() {
    assert_eq!(Account::parse("Cash:Wallet"), Err(Error::InvalidAccountType));
    assert_eq!(Account::parse(""), Err(Error::InvalidAccountType));
    assert_eq!(Account::parse("assets:Cash"), Err(Error::InvalidAccountType));
}

#[test]
fn account_type_parse_knows_the_five_roots() {
    assert_eq!(AccountType::parse("Assets"), Ok(AccountType::Assets));
    assert_eq!(AccountType::parse("Liabilities"), Ok(AccountType::Liabilities));
    assert_eq!(AccountType::parse("Equity"), Ok(AccountType::Equity));
    assert_eq!(AccountType::parse("Income"), Ok(AccountType::Income));
    assert_eq!(AccountType::parse("Expenses"), Ok(AccountType::Expenses));
    assert_eq!(AccountType::parse("Expense"), Err(Error::InvalidAccountType));
    assert_eq!(AccountType::from("Equity"), AccountType::Equity);
}

#[test]
fn renamed_roots_are_looked_up_and_printed() {
    let mut names = RootNames::new();
    names.rename(AccountType::Assets, "Aktiva".to_string());
    assert_eq!(names.name(AccountType::Assets), "Aktiva");
    assert_eq!(names.name(AccountType::Income), "Income");
    assert_eq!(names.lookup("Aktiva"), Ok(AccountType::Assets));
    assert_eq!(names.lookup("Assets"), Err(Error::InvalidAccountType));
    let account = Account::parse_with("Aktiva:Bank:Giro", &names).unwrap();
    assert_eq!(account.account_type, AccountType::Assets);
    assert_eq!(account.to_string_with(&names), "Aktiva:Bank:Giro");
    assert_eq!(account.to_string(), "Assets:Bank:Giro");
    assert_eq!(
        Account::parse_with("Assets:Bank", &names),
        Err(Error::InvalidAccountType)
    );
}

#[test]
fn ancestors_are_proper_prefixes_of_the_same_type() {
    let bank = Account::from("Assets:US:BofA");
    let checking = Account::from("Assets:US:BofA:Checking");
    let root = Account::from("Assets");
    let other = Account::from("Liabilities:US:BofA:Checking");
    assert!(bank.is_ancestor_of(&checking));
    assert!(root.is_ancestor_of(&checking));
    assert!(root.is_ancestor_of(&bank));
    assert!(!checking.is_ancestor_of(&bank));
    assert!(!bank.is_ancestor_of(&bank));
    assert!(!bank.is_ancestor_of(&other));
    assert!(!Account::from("Assets:US:Vanguard").is_ancestor_of(&checking));
    assert!(bank.same_as(&Account::from("Assets:US:BofA")));
    assert!(!bank.same_as(&checking));
}
