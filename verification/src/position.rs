//! Lots held at cost: the resolved cost of a lot, the under-specified cost
//! that a posting writes, and positions.

use crate::amount::Amount;
use crate::currency::Currency;
use crate::date::Date;
use crate::decimal::{decimal_text, Decimal};
use vstd::prelude::*;
use vstd::string::StringExecFns;

verus! {

/// The cost basis of one lot: what one unit cost, in which currency, when
/// the lot was acquired, and the label that it was given.
#[derive(Clone, Debug, PartialEq, Eq)]
pub struct Cost {
    /// Cost of one unit; never negative.
    pub number: Decimal,
    pub currency: Currency,
    pub date: Date,
    pub label: Option<String>,
}

impl Cost {
    pub fn new(number: Decimal, currency: Currency, date: Date, label: Option<String>) -> (r: Cost)
        ensures
            r.number == number,
            r.currency == currency,
            r.date == date,
            r.label == label,
    {
        Cost { number, currency, date, label }
    }
}

/// What a posting says of the cost of the lots that it adds or reduces. Any
/// of its parts may be missing; the empty specification matches every lot.
#[derive(Clone, Debug, PartialEq, Eq)]
pub struct CostSpec {
    /// Cost of one unit.
    pub number_per: Option<Decimal>,
    /// Cost of all units together, on top of the cost per unit.
    pub number_total: Option<Decimal>,
    pub currency: Option<Currency>,
    pub date: Option<Date>,
    pub label: Option<String>,
    /// Whether the lots are to be merged at their average cost.
    pub merge_cost: bool,
}

impl CostSpec {
    /// The specification as text: the cost per unit, or `0` where it is
    /// missing; then a space and the currency, where there is one.
    pub open spec fn text(&self) -> Seq<char> {
        let num = match self.number_per {
            Some(n) => decimal_text(n@.mantissa, n@.scale),
            None => decimal_text(0, 0),
        };
        match self.currency {
            Some(c) => num + seq![' '] + c@,
            None => num,
        }
    }

    /// Whether the specification has no part at all.
    pub open spec fn is_empty(&self) -> bool {
        &&& self.number_per is None
        &&& self.number_total is None
        &&& self.currency is None
        &&& self.date is None
        &&& self.label is None
    }

    /// The specification without any part: it matches every lot.
    pub fn empty() -> (r: CostSpec)
        ensures
            r.is_empty(),
            !r.merge_cost,
    {
        CostSpec {
            number_per: None,
            number_total: None,
            currency: None,
            date: None,
            label: None,
            merge_cost: false,
        }
    }

    /// The specification with the cost per unit `number`.
    pub fn with_number_per(self, number: Decimal) -> (r: CostSpec)
        ensures
            r == (CostSpec { number_per: Some(number), ..self }),
    {
        CostSpec { number_per: Some(number), ..self }
    }

    /// The specification with the total cost `number`.
    pub fn with_number_total(self, number: Decimal) -> (r: CostSpec)
        ensures
            r == (CostSpec { number_total: Some(number), ..self }),
    {
        CostSpec { number_total: Some(number), ..self }
    }

    /// The specification with the currency `currency`.
    pub fn with_currency(self, currency: Currency) -> (r: CostSpec)
        ensures
            r == (CostSpec { currency: Some(currency), ..self }),
    {
        CostSpec { currency: Some(currency), ..self }
    }

    /// The specification with the date `date`.
    pub fn with_date(self, date: Date) -> (r: CostSpec)
        ensures
            r == (CostSpec { date: Some(date), ..self }),
    {
        CostSpec { date: Some(date), ..self }
    }

    /// The specification with the label `label`.
    pub fn with_label(self, label: String) -> (r: CostSpec)
        ensures
            r == (CostSpec { label: Some(label), ..self }),
    {
        CostSpec { label: Some(label), ..self }
    }

    /// The specification with the request to merge lots set to `merge`.
    pub fn with_merge_cost(self, merge: bool) -> (r: CostSpec)
        ensures
            r == (CostSpec { merge_cost: merge, ..self }),
    {
        CostSpec { merge_cost: merge, ..self }
    }

    /// The specification as text: the cost per unit, or `0` where it is
    /// missing; then a space and the currency, where there is one.
    pub fn to_string(&self) -> (r: String)
        ensures
            r@ == self.text(),
    {
        let mut out: String = match &self.number_per {
            Some(n) => n.to_string(),
            None => Decimal::zero().to_string(),
        };
        match &self.currency {
            Some(c) => {
                proof {
                    reveal_strlit(" ");
                    assert(" "@ =~= seq![' ']);
                }
                out.append(" ");
                out.append(c.as_str());
            },
            None => {},
        }
        out
    }
}

/// One lot held by an account: a number of units and, where the lot is held
/// at cost, its cost basis.
#[derive(Clone, Debug, PartialEq, Eq)]
pub struct Position {
    pub units: Amount,
    pub cost: Option<Cost>,
}

impl Position {
    pub fn new(units: Amount, cost: Option<Cost>) -> (r: Position)
        ensures
            r.units == units,
            r.cost == cost,
    {
        Position { units, cost }
    }
}

} // verus!
