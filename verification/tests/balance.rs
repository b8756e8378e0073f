use beancount_core::account::Account;
use beancount_core::amount::{Amount, IncompleteAmount};
use beancount_core::balance::{
    balance, check_balanced, find_unbalanced, resolve, sum_by_currency, tolerance_of, Holding,
    ResolvedPosting,
};
use beancount_core::booking::{Booked, Booking, LotReduction};
use beancount_core::date::Date;
use beancount_core::decimal::Decimal;
use beancount_core::error::{Error, Failure};
use beancount_core::position::{Cost, CostSpec, Position};
use beancount_core::posting::Posting;
use beancount_core::transaction::Transaction;

fn dec(s: &str) -> Decimal {
    Decimal::from_str_exact(s).unwrap()
}

fn amount(n: &str, c: &str) -> Amount {
    Amount::new(dec(n), c.to_string())
}

fn incomplete(n: &str, c: &str) -> IncompleteAmount {
    IncompleteAmount::new(Some(dec(n)), Some(c.to_string()))
}

fn posting(account: &str, n: &str, c: &str) -> Posting {
    Posting::new(Account::from(account), incomplete(n, c))
}

fn txn(postings: Vec<Posting>) -> Transaction {
    let mut t = Transaction::new(Date::from_str_unchecked("2014-05-05"), "test".to_string());
    for p in postings {
        t = t.with_posting(p);
    }
    t
}

fn lot(units: &str, commodity: &str, cost: &str, currency: &str, date: &str) -> Position {
    Position::new(
        amount(units, commodity),
        Some(Cost::new(
            dec(cost),
            currency.to_string(),
            Date::from_str_unchecked(date),
            None,
        )),
    )
}

fn ivv_holding(booking: Option<Booking>) -> Vec<Holding> {
    vec![
        Holding::new(Account::from("Assets:Cash"), None, vec![]),
        Holding::new(
            Account::from("Assets:ETrade:IVV"),
            booking,
            vec![
                lot("20", "IVV", "183.07", "USD", "2014-02-11"),
                lot("15", "IVV", "187.12", "USD", "2014-03-22"),
            ],
        ),
    ]
}

fn failure(posting: Option<(usize, &str)>, error: Error) -> Failure {
    Failure {
        date: Date::from_str_unchecked("2014-05-05"),
        posting: posting.map(|p| p.0),
        account: posting.map(|p| Account::from(p.1)),
        error,
    }
}

#[test]
fn two_postings_in_one_currency_balance() {
    let t = txn(vec![
        posting("Assets:US:BofA:Checking", "-400.00", "USD"),
        posting("Assets:US:BofA:Savings", "400.00", "USD"),
    ]);
    let done = balance(&t, &vec![], None).unwrap();
    assert_eq!(done.postings.len(), 2);
    assert_eq!(done.postings[0].units, amount("-400.00", "USD"));
    assert_eq!(done.postings[0].weights, vec![amount("-400.00", "USD")]);
    assert_eq!(done.postings[1].weights, vec![amount("400.00", "USD")]);
    assert_eq!(done.postings[0].booked, None);
}

#[test]
fn a_price_converts_the_weight_into_its_currency() {
    let t = txn(vec![
        posting("Assets:MyBank:Checking", "-400.00", "USD").with_price(incomplete("1.09", "CAD")),
        posting("Assets:FR:SocGen:Checking", "436.01", "CAD"),
    ]);
    let done = balance(&t, &vec![], Some(dec("0.01"))).unwrap();
    assert_eq!(done.postings[0].units, amount("-400.00", "USD"));
    assert_eq!(done.postings[0].weights, vec![amount("-436.00", "CAD")]);
    assert_eq!(done.postings[1].weights, vec![amount("436.01", "CAD")]);
    let sums = sum_by_currency(&vec![amount("-436.0000", "CAD"), amount("436.01", "CAD")]);
    assert_eq!(sums, Some(vec![amount("0.01", "CAD")]));
}

#[test]
fn a_price_that_is_a_cent_off_is_beyond_the_implied_tolerance() {
    let t = txn(vec![
        posting("Assets:MyBank:Checking", "-400.00", "USD").with_price(incomplete("1.09", "CAD")),
        posting("Assets:FR:SocGen:Checking", "436.01", "CAD"),
    ]);
    assert_eq!(tolerance_of(&t.postings), dec("0.005"));
    assert_eq!(
        balance(&t, &vec![], None),
        Err(failure(
            None,
            Error::UnbalancedTransaction {
                currency: "CAD".to_string(),
                residual: dec("0.01"),
            }
        ))
    );
    let exact = txn(vec![
        posting("Assets:MyBank:Checking", "-400.00", "USD").with_price(incomplete("1.09", "CAD")),
        posting("Assets:FR:SocGen:Checking", "436.00", "CAD"),
    ]);
    assert!(balance(&exact, &vec![], None).is_ok());
    assert!(balance(&exact, &vec![], Some(dec("0"))).is_ok());
}

#[test]
fn the_posting_without_a_number_is_inferred() {
    let t = txn(vec![
        posting("Liabilities:CreditCard:CapitalOne", "-37.45", "USD"),
        Posting::new(Account::from("Expenses:Restaurant"), IncompleteAmount::empty()),
    ]);
    let done = balance(&t, &vec![], None).unwrap();
    assert_eq!(done.postings.len(), 2);
    assert_eq!(done.postings[1].units, amount("37.45", "USD"));
    assert_eq!(done.postings[1].units.num.mantissa(), 3745);
    assert_eq!(done.postings[1].weights, vec![amount("37.45", "USD")]);
    assert_eq!(done.postings[0].units, amount("-37.45", "USD"));
}

#[test]
fn the_inferred_posting_may_stand_anywhere_and_name_its_currency() {
    let t = txn(vec![
        posting("Expenses:Food", "10.00", "USD"),
        Posting::new(
            Account::from("Assets:Cash"),
            IncompleteAmount::new(None, Some("USD".to_string())),
        ),
        posting("Expenses:Drinks", "2.5", "USD"),
    ]);
    let done = resolve(&t, &vec![]).unwrap();
    assert_eq!(done.postings.len(), 3);
    assert_eq!(done.postings[0].units, amount("10.00", "USD"));
    assert_eq!(done.postings[1].units, amount("-12.50", "USD"));
    assert_eq!(done.postings[2].units, amount("2.5", "USD"));
    assert_eq!(check_balanced(&done, &dec("0")), Ok(()));

    let other = txn(vec![
        posting("Expenses:Food", "10.00", "USD"),
        Posting::new(
            Account::from("Assets:Cash"),
            IncompleteAmount::new(None, Some("CAD".to_string())),
        ),
    ]);
    let done = resolve(&other, &vec![]).unwrap();
    assert_eq!(done.postings[1].units, amount("0", "CAD"));
    assert_eq!(
        check_balanced(&done, &dec("0.005")),
        Err(Error::UnbalancedTransaction {
            currency: "USD".to_string(),
            residual: dec("10.00"),
        })
    );
}

#[test]
fn inference_needs_exactly_one_open_currency() {
    let two = txn(vec![
        posting("Expenses:Food", "10.00", "USD"),
        posting("Expenses:Food", "5.00", "CAD"),
        Posting::new(Account::from("Assets:Cash"), IncompleteAmount::empty()),
    ]);
    assert_eq!(
        balance(&two, &vec![], None),
        Err(failure(Some((2, "Assets:Cash")), Error::AmbiguousAutobalance))
    );
    let none = txn(vec![
        posting("Expenses:Food", "10.00", "USD"),
        posting("Assets:Cash", "-10.00", "USD"),
        Posting::new(Account::from("Assets:Cash"), IncompleteAmount::empty()),
    ]);
    assert_eq!(
        balance(&none, &vec![], None),
        Err(failure(Some((2, "Assets:Cash")), Error::AmbiguousAutobalance))
    );
    let twice = txn(vec![
        posting("Expenses:Food", "10.00", "USD"),
        Posting::new(Account::from("Assets:Cash"), IncompleteAmount::empty()),
        Posting::new(Account::from("Assets:Bank"), IncompleteAmount::empty()),
    ]);
    assert_eq!(
        balance(&twice, &vec![], None),
        Err(failure(Some((2, "Assets:Bank")), Error::AmbiguousAutobalance))
    );
    let priced = txn(vec![
        posting("Expenses:Food", "10.00", "USD"),
        Posting::new(Account::from("Assets:Cash"), IncompleteAmount::empty())
            .with_price(incomplete("1.09", "CAD")),
    ]);
    assert_eq!(
        balance(&priced, &vec![], None),
        Err(failure(Some((1, "Assets:Cash")), Error::AmbiguousAutobalance))
    );
}

#[test]
fn incomplete_amounts_and_negative_prices_fail_at_their_posting() {
    let bare = txn(vec![
        posting("Expenses:Food", "10.00", "USD"),
        Posting::new(
            Account::from("Assets:Cash"),
            IncompleteAmount::new(Some(dec("-10.00")), None),
        ),
    ]);
    assert_eq!(
        balance(&bare, &vec![], None),
        Err(failure(Some((1, "Assets:Cash")), Error::IncompleteConversion))
    );
    let unpriced = txn(vec![posting("Expenses:Food", "10.00", "USD")
        .with_price(IncompleteAmount::new(None, Some("CAD".to_string())))]);
    assert_eq!(
        balance(&unpriced, &vec![], None),
        Err(failure(Some((0, "Expenses:Food")), Error::IncompleteConversion))
    );
    let negative = txn(vec![
        posting("Assets:Cash", "10.00", "USD"),
        posting("Assets:Bank", "-10.00", "USD").with_price(incomplete("-1.09", "CAD")),
    ]);
    assert_eq!(
        balance(&negative, &vec![], None),
        Err(failure(Some((1, "Assets:Bank")), Error::NegativeCostOrPrice))
    );
}

#[test]
fn an_unbalanced_transaction_names_currency_and_residual() {
    let t = txn(vec![
        posting("Assets:Cash", "-400.00", "USD"),
        posting("Expenses:Food", "399.00", "USD"),
        posting("Expenses:Food", "5", "CAD"),
    ]);
    assert_eq!(
        balance(&t, &vec![], None),
        Err(failure(
            None,
            Error::UnbalancedTransaction {
                currency: "USD".to_string(),
                residual: dec("-1.00"),
            }
        ))
    );
    assert_eq!(
        balance(&t, &vec![], Some(dec("1"))),
        Err(failure(
            None,
            Error::UnbalancedTransaction {
                currency: "CAD".to_string(),
                residual: dec("5"),
            }
        ))
    );
    assert!(balance(&t, &vec![], Some(dec("5"))).is_ok());
}

#[test]
fn the_implied_tolerance_is_half_the_smallest_unit() {
    assert_eq!(tolerance_of(&vec![]), dec("0.5"));
    assert_eq!(
        tolerance_of(&vec![posting("Assets:Cash", "10", "USD")]),
        dec("0.5")
    );
    assert_eq!(
        tolerance_of(&vec![
            posting("Assets:Cash", "10.00", "USD"),
            posting("Assets:Cash", "10.0000", "USD"),
            Posting::new(Account::from("Assets:Cash"), IncompleteAmount::empty()),
        ]),
        dec("0.00005")
    );
    let finest = Decimal::try_new(1, 28).unwrap();
    let p = Posting::new(
        Account::from("Assets:Cash"),
        IncompleteAmount::new(Some(finest), Some("USD".to_string())),
    );
    let t = tolerance_of(&vec![p]);
    assert!(t.is_zero());
    assert_eq!(t.scale(), 28);
    let near = txn(vec![
        posting("Assets:Cash", "10.004", "USD"),
        posting("Assets:Bank", "-10.00", "USD"),
    ]);
    assert!(balance(&near, &vec![], Some(dec("0.005"))).is_ok());
    assert!(balance(&near, &vec![], None).is_err());
}

#[test]
fn sums_go_by_currency_in_order_of_appearance() {
    let weights = vec![
        amount("1.5", "USD"),
        amount("2", "CAD"),
        amount("-1.50", "USD"),
        amount("3", "EUR"),
        amount("0.25", "CAD"),
    ];
    let sums = sum_by_currency(&weights).unwrap();
    assert_eq!(
        sums,
        vec![amount("0", "USD"), amount("2.25", "CAD"), amount("3", "EUR")]
    );
    assert_eq!(sums[0].num.scale(), 2);
    assert_eq!(find_unbalanced(&sums, &dec("0.005")), Some(1));
    assert_eq!(find_unbalanced(&sums, &dec("2.25")), Some(2));
    assert_eq!(find_unbalanced(&sums, &dec("3")), None);
    assert_eq!(sum_by_currency(&vec![]), Some(vec![]));
    let huge = Decimal::try_new(79228162514264337593543950335, 0).unwrap();
    let too_much = vec![
        Amount::new(huge, "USD".to_string()),
        amount("1", "USD"),
    ];
    assert_eq!(sum_by_currency(&too_much), None);
}

#[test]
fn a_reduction_is_booked_against_the_lots_of_its_account() {
    let spec = CostSpec::empty()
        .with_number_per(dec("183.07"))
        .with_currency("USD".to_string());
    let t = txn(vec![
        posting("Assets:ETrade:IVV", "-20", "IVV")
            .with_cost(spec)
            .with_price(incomplete("197.90", "USD")),
        posting("Assets:Cash", "3661.40", "USD"),
    ]);
    let done = balance(&t, &ivv_holding(None), None).unwrap();
    assert_eq!(
        done.postings[0],
        ResolvedPosting {
            units: amount("-20", "IVV"),
            booked: Some(Booked::Lots(vec![LotReduction { lot: 0, units: dec("20") }])),
            weights: vec![amount("-3661.40", "USD")],
        }
    );
}

#[test]
fn a_reduction_over_several_lots_has_a_weight_for_each() {
    let sale = posting("Assets:ETrade:IVV", "-25", "IVV").with_cost(CostSpec::empty());
    let t = txn(vec![
        sale,
        Posting::new(Account::from("Assets:Cash"), IncompleteAmount::empty()),
    ]);
    let done = balance(&t, &ivv_holding(Some(Booking::Fifo)), None).unwrap();
    assert_eq!(
        done.postings[0].booked,
        Some(Booked::Lots(vec![
            LotReduction { lot: 0, units: dec("20") },
            LotReduction { lot: 1, units: dec("5") },
        ]))
    );
    assert_eq!(
        done.postings[0].weights,
        vec![amount("-3661.40", "USD"), amount("-935.60", "USD")]
    );
    assert_eq!(done.postings[1].units, amount("4597.00", "USD"));
    assert_eq!(
        balance(&t, &ivv_holding(None), None),
        Err(failure(Some((0, "Assets:ETrade:IVV")), Error::AmbiguousBooking))
    );
    assert_eq!(
        balance(&t, &vec![], None),
        Err(failure(Some((0, "Assets:ETrade:IVV")), Error::NoMatchingLot))
    );
}

#[test]
fn an_augmentation_weighs_what_its_cost_says() {
    let spec = CostSpec::empty()
        .with_number_per(dec("183.07"))
        .with_number_total(dec("9.95"))
        .with_currency("USD".to_string());
    let t = txn(vec![
        posting("Assets:ETrade:IVV", "10", "IVV").with_cost(spec),
        posting("Assets:Cash", "-1840.65", "USD"),
    ]);
    let done = balance(&t, &vec![], None).unwrap();
    assert_eq!(done.postings[0].weights, vec![amount("1840.65", "USD")]);
    assert_eq!(done.postings[0].booked, None);

    let unnamed = txn(vec![
        posting("Assets:ETrade:IVV", "10", "IVV")
            .with_cost(CostSpec::empty().with_number_per(dec("183.07"))),
        posting("Assets:Cash", "-1830.70", "USD"),
    ]);
    assert_eq!(
        balance(&unnamed, &vec![], None),
        Err(failure(Some((0, "Assets:ETrade:IVV")), Error::IncompleteConversion))
    );
    let unnumbered = txn(vec![
        posting("Assets:ETrade:IVV", "10", "IVV")
            .with_cost(CostSpec::empty().with_currency("USD".to_string())),
        posting("Assets:Cash", "-1830.70", "USD"),
    ]);
    assert_eq!(
        balance(&unnumbered, &vec![], None),
        Err(failure(Some((0, "Assets:ETrade:IVV")), Error::IncompleteConversion))
    );
    let negative = txn(vec![posting("Assets:ETrade:IVV", "10", "IVV").with_cost(
        CostSpec::empty()
            .with_number_per(dec("-183.07"))
            .with_currency("USD".to_string()),
    )]);
    assert_eq!(
        balance(&negative, &vec![], None),
        Err(failure(Some((0, "Assets:ETrade:IVV")), Error::NegativeCostOrPrice))
    );
}

#[test]
fn reductions_under_other_methods_weigh_accordingly() {
    let sale = posting("Assets:ETrade:IVV", "-7", "IVV").with_cost(CostSpec::empty());
    let t = txn(vec![
        sale,
        Posting::new(Account::from("Assets:Cash"), IncompleteAmount::empty()),
    ]);
    let average = balance(&t, &ivv_holding(Some(Booking::Average)), None).unwrap();
    assert_eq!(
        average.postings[0].booked,
        Some(Booked::Merged {
            lots: vec![0, 1],
            held: dec("35"),
            value: dec("6468.20"),
            cost: dec("6468.20").checked_div(&dec("35")).unwrap(),
            currency: "USD".to_string(),
            taken: dec("7"),
        })
    );
    assert_eq!(average.postings[0].weights, vec![amount("-1293.64", "USD")]);
    assert_eq!(average.postings[1].units, amount("1293.64", "USD"));

    let nominal = txn(vec![
        posting("Assets:ETrade:IVV", "-7", "IVV").with_cost(
            CostSpec::empty()
                .with_number_per(dec("100"))
                .with_currency("USD".to_string()),
        ),
        Posting::new(Account::from("Assets:Cash"), IncompleteAmount::empty()),
    ]);
    let done = balance(&nominal, &ivv_holding(Some(Booking::NoBooking)), None).unwrap();
    assert_eq!(done.postings[0].booked, Some(Booked::Nominal));
    assert_eq!(done.postings[0].weights, vec![amount("-700", "USD")]);
    assert_eq!(done.postings[1].units, amount("700", "USD"));
    assert_eq!(
        balance(&nominal, &ivv_holding(Some(Booking::Lifo)), None),
        Err(failure(Some((0, "Assets:ETrade:IVV")), Error::NegativeHeldAtCost))
    );
}
