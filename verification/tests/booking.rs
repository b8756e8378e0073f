use beancount_core::amount::Amount;
use beancount_core::booking::{book_reduction, candidates, Booked, Booking, LotReduction};
use beancount_core::date::Date;
use beancount_core::decimal::Decimal;
use beancount_core::error::Error;
use beancount_core::position::{Cost, CostSpec, Position};

fn dec(s: &str) -> Decimal {
    Decimal::from_str_exact(s).unwrap()
}

fn amount(n: &str, c: &str) -> Amount {
    Amount::new(dec(n), c.to_string())
}

fn lot(units: &str, commodity: &str, cost: &str, currency: &str, date: &str) -> Position {
    Position::new(
        amount(units, commodity),
        Some(Cost::new(
            dec(cost),
            currency.to_string(),
            Date::from_str_unchecked(date),
            None,
        )),
    )
}

fn ivv_lots() -> Vec<Position> {
    vec![
        lot("20", "IVV", "183.07", "USD", "2014-02-11"),
        lot("15", "IVV", "187.12", "USD", "2014-03-22"),
    ]
}

fn taken(lot: usize, units: &str) -> LotReduction {
    LotReduction { lot, units: dec(units) }
}

#[test]
fn booking_tokens() {
    assert_eq!(Booking::try_from("STRICT"), Ok(Booking::Strict));
    assert_eq!(Booking::try_from("STRICT_WITH_SIZE"), Ok(Booking::StrictWithSize));
    assert_eq!(Booking::try_from("NONE"), Ok(Booking::NoBooking));
    assert_eq!(Booking::try_from("AVERAGE"), Ok(Booking::Average));
    assert_eq!(Booking::try_from("FIFO"), Ok(Booking::Fifo));
    assert_eq!(Booking::try_from("LIFO"), Ok(Booking::Lifo));
    assert_eq!(Booking::try_from("strict"), Err(Error::UnknownBookingToken));
    assert_eq!(Booking::try_from(""), Err(Error::UnknownBookingToken));
    assert_eq!(Booking::try_from("HIFO"), Err(Error::UnknownBookingToken));
    assert_eq!(Booking::or_default(None), Booking::Strict);
    assert_eq!(Booking::or_default(Some(Booking::Lifo)), Booking::Lifo);
    assert_eq!(Booking::default(), Booking::Strict);
}

#[test]
fn strict_reduction_at_a_stated_cost_takes_the_one_lot() {
    let spec = CostSpec::empty()
        .with_number_per(dec("183.07"))
        .with_currency("USD".to_string());
    let booked = book_reduction(&amount("-20", "IVV"), &spec, &ivv_lots(), Booking::Strict);
    assert_eq!(booked, Ok(Booked::Lots(vec![taken(0, "20")])));
}

#[test]
fn strict_reduction_of_part_of_several_lots_is_ambiguous() {
    let booked = book_reduction(
        &amount("-20", "IVV"),
        &CostSpec::empty(),
        &ivv_lots(),
        Booking::Strict,
    );
    assert_eq!(booked, Err(Error::AmbiguousBooking));
}

#[test]
fn strict_reduction_of_all_that_is_held_takes_every_lot() {
    let booked = book_reduction(
        &amount("-35", "IVV"),
        &CostSpec::empty(),
        &ivv_lots(),
        Booking::Strict,
    );
    assert_eq!(booked, Ok(Booked::Lots(vec![taken(0, "20"), taken(1, "15")])));
}

#[test]
fn fifo_takes_the_oldest_lots_first() {
    let booked = book_reduction(
        &amount("-25", "IVV"),
        &CostSpec::empty(),
        &ivv_lots(),
        Booking::Fifo,
    );
    assert_eq!(booked, Ok(Booked::Lots(vec![taken(0, "20"), taken(1, "5")])));
}

#[test]
fn fifo_goes_by_date_and_not_by_place() {
    let lots = vec![
        lot("15", "IVV", "187.12", "USD", "2014-03-22"),
        lot("20", "IVV", "183.07", "USD", "2014-02-11"),
        lot("10", "IVV", "190.00", "USD", "2014-03-22"),
    ];
    let booked = book_reduction(&amount("-40", "IVV"), &CostSpec::empty(), &lots, Booking::Fifo);
    assert_eq!(
        booked,
        Ok(Booked::Lots(vec![taken(1, "20"), taken(0, "15"), taken(2, "5")]))
    );
}

#[test]
fn lifo_takes_the_newest_lots_first() {
    let booked = book_reduction(
        &amount("-25", "IVV"),
        &CostSpec::empty(),
        &ivv_lots(),
        Booking::Lifo,
    );
    assert_eq!(booked, Ok(Booked::Lots(vec![taken(1, "15"), taken(0, "10")])));
}

#[test]
fn reduction_at_a_cost_that_no_lot_has_is_negative_at_cost() {
    let lots = vec![lot("20", "MSFT", "42.10", "USD", "2014-05-01")];
    let spec = CostSpec::empty()
        .with_number_per(dec("43.40"))
        .with_currency("USD".to_string());
    let booked = book_reduction(&amount("-10", "MSFT"), &spec, &lots, Booking::Strict);
    assert_eq!(booked, Err(Error::NegativeHeldAtCost));
}

#[test]
fn reduction_of_a_commodity_that_is_not_held_matches_no_lot() {
    let spec = CostSpec::empty();
    let booked = book_reduction(&amount("-10", "MSFT"), &spec, &ivv_lots(), Booking::Strict);
    assert_eq!(booked, Err(Error::NoMatchingLot));
    let none: Vec<Position> = Vec::new();
    assert_eq!(
        book_reduction(&amount("-10", "MSFT"), &spec, &none, Booking::Fifo),
        Err(Error::NoMatchingLot)
    );
    let uncosted = vec![Position::new(amount("50", "MSFT"), None)];
    assert_eq!(
        book_reduction(&amount("-10", "MSFT"), &spec, &uncosted, Booking::Fifo),
        Err(Error::NoMatchingLot)
    );
}

#[test]
fn reduction_beyond_what_is_held_is_negative_at_cost() {
    let one = vec![lot("20", "MSFT", "42.10", "USD", "2014-05-01")];
    assert_eq!(
        book_reduction(&amount("-21", "MSFT"), &CostSpec::empty(), &one, Booking::Strict),
        Err(Error::NegativeHeldAtCost)
    );
    for method in [
        Booking::Strict,
        Booking::StrictWithSize,
        Booking::Average,
        Booking::Fifo,
        Booking::Lifo,
    ] {
        assert_eq!(
            book_reduction(&amount("-36", "IVV"), &CostSpec::empty(), &ivv_lots(), method),
            Err(Error::NegativeHeldAtCost)
        );
    }
}

#[test]
fn a_single_candidate_is_reduced_whatever_the_method() {
    let one = vec![lot("20", "MSFT", "42.10", "USD", "2014-05-01")];
    for method in [
        Booking::Strict,
        Booking::StrictWithSize,
        Booking::NoBooking,
        Booking::Average,
        Booking::Fifo,
        Booking::Lifo,
    ] {
        assert_eq!(
            book_reduction(&amount("-7.5", "MSFT"), &CostSpec::empty(), &one, method),
            Ok(Booked::Lots(vec![taken(0, "7.5")]))
        );
    }
}

#[test]
fn no_booking_always_succeeds() {
    let spec = CostSpec::empty()
        .with_number_per(dec("43.40"))
        .with_currency("USD".to_string());
    let lots = vec![lot("20", "MSFT", "42.10", "USD", "2014-05-01")];
    assert_eq!(
        book_reduction(&amount("-10", "MSFT"), &spec, &lots, Booking::NoBooking),
        Ok(Booked::Nominal)
    );
    assert_eq!(
        book_reduction(&amount("-21", "MSFT"), &CostSpec::empty(), &lots, Booking::NoBooking),
        Ok(Booked::Nominal)
    );
    assert_eq!(
        book_reduction(&amount("-20", "IVV"), &CostSpec::empty(), &ivv_lots(), Booking::NoBooking),
        Ok(Booked::Nominal)
    );
    assert_eq!(
        book_reduction(&amount("-99", "IVV"), &CostSpec::empty(), &ivv_lots(), Booking::NoBooking),
        Ok(Booked::Nominal)
    );
    assert_eq!(
        book_reduction(&amount("-35", "IVV"), &CostSpec::empty(), &ivv_lots(), Booking::NoBooking),
        Ok(Booked::Lots(vec![taken(0, "20"), taken(1, "15")]))
    );
}

#[test]
fn strict_with_size_takes_the_one_lot_of_that_size() {
    assert_eq!(
        book_reduction(
            &amount("-15", "IVV"),
            &CostSpec::empty(),
            &ivv_lots(),
            Booking::StrictWithSize
        ),
        Ok(Booked::Lots(vec![taken(1, "15")]))
    );
    assert_eq!(
        book_reduction(
            &amount("-10", "IVV"),
            &CostSpec::empty(),
            &ivv_lots(),
            Booking::StrictWithSize
        ),
        Err(Error::AmbiguousBooking)
    );
    let twins = vec![
        lot("15", "IVV", "183.07", "USD", "2014-02-11"),
        lot("15.0", "IVV", "187.12", "USD", "2014-03-22"),
        lot("5", "IVV", "187.12", "USD", "2014-03-23"),
    ];
    assert_eq!(
        book_reduction(&amount("-15", "IVV"), &CostSpec::empty(), &twins, Booking::StrictWithSize),
        Err(Error::AmbiguousBooking)
    );
}

#[test]
fn average_merges_the_lots() {
    let lots = vec![
        lot("10", "IVV", "100.00", "USD", "2014-02-11"),
        lot("30", "IVV", "200.00", "USD", "2014-03-22"),
    ];
    let booked = book_reduction(&amount("-5", "IVV"), &CostSpec::empty(), &lots, Booking::Average);
    assert_eq!(
        booked,
        Ok(Booked::Merged {
            lots: vec![0, 1],
            held: dec("40"),
            value: dec("7000"),
            cost: dec("175"),
            currency: "USD".to_string(),
            taken: dec("5"),
        })
    );
    let asked = CostSpec::empty().with_merge_cost(true);
    assert_eq!(
        book_reduction(&amount("-5", "IVV"), &asked, &lots, Booking::Strict),
        booked
    );
    let mixed = vec![
        lot("10", "IVV", "100.00", "USD", "2014-02-11"),
        lot("30", "IVV", "200.00", "CAD", "2014-03-22"),
    ];
    assert_eq!(
        book_reduction(&amount("-5", "IVV"), &CostSpec::empty(), &mixed, Booking::Average),
        Err(Error::AmbiguousBooking)
    );
}

#[test]
fn candidates_agree_with_every_present_part() {
    let mut labelled = lot("5", "IVV", "187.12", "USD", "2014-03-22");
    labelled.cost = Some(Cost::new(
        dec("187.12"),
        "USD".to_string(),
        Date::from_str_unchecked("2014-03-22"),
        Some("ref-001".to_string()),
    ));
    let lots = vec![
        lot("20", "IVV", "183.07", "USD", "2014-02-11"),
        lot("15", "IVV", "187.12", "USD", "2014-03-22"),
        labelled,
        lot("15", "IVV", "187.12", "CAD", "2014-03-22"),
        lot("15", "VEA", "187.12", "USD", "2014-03-22"),
        Position::new(amount("15", "IVV"), None),
        lot("-3", "IVV", "187.12", "USD", "2014-03-22"),
        lot("0", "IVV", "187.12", "USD", "2014-03-22"),
    ];
    let units = amount("-1", "IVV");
    assert_eq!(candidates(&units, &CostSpec::empty(), &lots), Some(vec![0, 1, 2, 3]));
    let by_number = CostSpec::empty().with_number_per(dec("187.120"));
    assert_eq!(candidates(&units, &by_number, &lots), Some(vec![1, 2, 3]));
    let by_currency = CostSpec::empty().with_currency("USD".to_string());
    assert_eq!(candidates(&units, &by_currency, &lots), Some(vec![0, 1, 2]));
    let by_date = CostSpec::empty().with_date(Date::from_str_unchecked("2014-02-11"));
    assert_eq!(candidates(&units, &by_date, &lots), Some(vec![0]));
    let by_label = CostSpec::empty().with_label("ref-001".to_string());
    assert_eq!(candidates(&units, &by_label, &lots), Some(vec![2]));
    let by_all = CostSpec::empty()
        .with_number_per(dec("187.12"))
        .with_currency("CAD".to_string())
        .with_date(Date::from_str_unchecked("2014-03-22"));
    assert_eq!(candidates(&units, &by_all, &lots), Some(vec![3]));
    let nothing = CostSpec::empty().with_label("ref-002".to_string());
    assert_eq!(candidates(&units, &nothing, &lots), Some(vec![]));
}

#[test]
fn a_total_cost_matches_by_the_size_of_the_reduction() {
    let lots = ivv_lots();
    let total = CostSpec::empty().with_number_total(dec("1830.70"));
    assert_eq!(candidates(&amount("-10", "IVV"), &total, &lots), Some(vec![0]));
    assert_eq!(candidates(&amount("-5", "IVV"), &total, &lots), Some(vec![]));
    let both = CostSpec::empty()
        .with_number_per(dec("183.00"))
        .with_number_total(dec("0.70"));
    assert_eq!(candidates(&amount("-10", "IVV"), &both, &lots), Some(vec![0]));
    assert_eq!(
        book_reduction(&amount("-10", "IVV"), &both, &lots, Booking::Strict),
        Ok(Booked::Lots(vec![taken(0, "10")]))
    );
}

#[test]
fn negative_numbers_in_a_cost_are_refused() {
    let per = CostSpec::empty().with_number_per(dec("-183.07"));
    assert_eq!(
        book_reduction(&amount("-20", "IVV"), &per, &ivv_lots(), Booking::Fifo),
        Err(Error::NegativeCostOrPrice)
    );
    let total = CostSpec::empty().with_number_total(dec("-1"));
    assert_eq!(
        book_reduction(&amount("-20", "IVV"), &total, &ivv_lots(), Booking::NoBooking),
        Err(Error::NegativeCostOrPrice)
    );
}

#[test]
fn numbers_out_of_range_are_an_overflow() {
    let huge = Decimal::try_new(79228162514264337593543950335, 0).unwrap();
    let lots = vec![
        Position::new(
            Amount::new(huge, "IVV".to_string()),
            Some(Cost::new(
                dec("1"),
                "USD".to_string(),
                Date::from_str_unchecked("2014-02-11"),
                None,
            )),
        ),
        lot("1", "IVV", "1", "USD", "2014-02-12"),
    ];
    assert_eq!(
        book_reduction(&amount("-5", "IVV"), &CostSpec::empty(), &lots, Booking::Fifo),
        Err(Error::Overflow)
    );
    let total = CostSpec::empty().with_number_total(dec("1"));
    assert_eq!(
        candidates(&Amount::new(huge, "IVV".to_string()), &total, &ivv_lots()),
        None
    );
}
