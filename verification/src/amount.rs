//! Amounts: a number of units of one currency, complete or with parts
//! missing.

use core::cmp::Ordering;
use crate::currency::Currency;
use crate::decimal::{decimal_text, Dec, Decimal};
use crate::error::Error;
use vstd::prelude::*;
use vstd::std_specs::cmp::PartialOrdSpec;
use vstd::std_specs::convert::{FromSpec, TryFromSpec};
use vstd::string::StringExecFns;

verus! {

/// Mathematical model of an amount.
pub struct AmountView {
    pub num: Dec,
    pub currency: Seq<char>,
}

impl AmountView {
    /// The order of two amounts: that of their numbers where the currencies
    /// are the same, none where they differ.
    pub open spec fn compare(self, other: AmountView) -> Option<Ordering> {
        if self.currency == other.currency {
            Some(self.num.compare(other.num))
        } else {
            None
        }
    }

    /// The amount as text: number, space, currency.
    pub open spec fn text(self) -> Seq<char> {
        decimal_text(self.num.mantissa, self.num.scale) + seq![' '] + self.currency
    }
}

/// A number of units of a certain commodity.
#[derive(Clone, Debug, PartialEq, Eq)]
pub struct Amount {
    /// The value of the amount.
    pub num: Decimal,
    /// The commodity of the amount.
    pub currency: Currency,
}

impl View for Amount {
    type V = AmountView;

    open spec fn view(&self) -> AmountView {
        AmountView { num: self.num@, currency: self.currency@ }
    }
}

impl Amount {
    /// `num` units of `currency`.
    pub fn new(num: Decimal, currency: Currency) -> (r: Amount)
        ensures
            r.num == num,
            r.currency == currency,
    {
        Amount { num, currency }
    }

    /// Whether both amounts are in the same currency.
    pub fn same_currency(&self, other: &Amount) -> (r: bool)
        ensures
            r == (self@.currency == other@.currency),
    {
        self.currency == other.currency
    }

    /// The amount as text: number, space, currency.
    pub fn to_string(&self) -> (r: String)
        ensures
            r@ == self@.text(),
    {
        let mut out: String = self.num.to_string();
        proof {
            reveal_strlit(" ");
            assert(" "@ =~= seq![' ']);
        }
        out.append(" ");
        out.append(self.currency.as_str());
        out
    }
}

impl PartialOrd for Amount {
    fn partial_cmp(&self, other: &Amount) -> (r: Option<Ordering>) {
        if self.currency == other.currency {
            Some(self.num.compare_to(&other.num))
        } else {
            None
        }
    }
}

impl vstd::std_specs::cmp::PartialOrdSpecImpl for Amount {
    open spec fn obeys_partial_cmp_spec() -> bool {
        true
    }

    open spec fn partial_cmp_spec(&self, other: &Amount) -> Option<Ordering> {
        self@.compare(other@)
    }
}

/// Mathematical model of an amount that may lack its number, its currency
/// or both.
pub struct IncompleteAmountView {
    pub num: Option<Dec>,
    pub currency: Option<Seq<char>>,
}

impl IncompleteAmountView {
    /// The order of two incomplete amounts: none where the currencies differ
    /// (a missing currency equals only a missing one); else that of the
    /// numbers, a missing number coming before every number.
    pub open spec fn compare(self, other: IncompleteAmountView) -> Option<Ordering> {
        if self.currency == other.currency {
            match (self.num, other.num) {
                (None, None) => Some(Ordering::Equal),
                (None, Some(_)) => Some(Ordering::Less),
                (Some(_), None) => Some(Ordering::Greater),
                (Some(x), Some(y)) => Some(x.compare(y)),
            }
        } else {
            None
        }
    }

    /// The amount as text: the number, or `0` where it is missing; then a
    /// space and the currency, where there is one.
    pub open spec fn text(self) -> Seq<char> {
        let num = match self.num {
            Some(n) => decimal_text(n.mantissa, n.scale),
            None => decimal_text(0, 0),
        };
        match self.currency {
            Some(c) => num + seq![' '] + c,
            None => num,
        }
    }
}

/// An amount that may have missing units and/or commodity.
#[derive(Clone, Debug, PartialEq, Eq)]
pub struct IncompleteAmount {
    /// The (optional) value of the amount.
    pub num: Option<Decimal>,
    /// The (optional) commodity of the amount.
    pub currency: Option<Currency>,
}

impl View for IncompleteAmount {
    type V = IncompleteAmountView;

    open spec fn view(&self) -> IncompleteAmountView {
        IncompleteAmountView {
            num: match self.num {
                Some(n) => Some(n@),
                None => None,
            },
            currency: match self.currency {
                Some(c) => Some(c@),
                None => None,
            },
        }
    }
}

/// Whether both hold the same text, or both none.
pub fn same_optional_text(a: &Option<String>, b: &Option<String>) -> (r: bool)
    ensures
        r == match (a, b) {
            (Some(x), Some(y)) => x@ == y@,
            (None, None) => true,
            _ => false,
        },
{
    match (a, b) {
        (Some(x), Some(y)) => *x == *y,
        (None, None) => true,
        _ => false,
    }
}

impl IncompleteAmount {
    /// An amount with the given parts.
    pub fn new(num: Option<Decimal>, currency: Option<Currency>) -> (r: IncompleteAmount)
        ensures
            r.num == num,
            r.currency == currency,
    {
        IncompleteAmount { num, currency }
    }

    /// An amount of which nothing is known.
    pub fn empty() -> (r: IncompleteAmount)
        ensures
            r.num is None,
            r.currency is None,
    {
        IncompleteAmount { num: None, currency: None }
    }

    /// The amount as text: the number, or `0` where it is missing; then a
    /// space and the currency, where there is one.
    pub fn to_string(&self) -> (r: String)
        ensures
            r@ == self@.text(),
    {
        let mut out: String = match &self.num {
            Some(n) => n.to_string(),
            None => Decimal::zero().to_string(),
        };
        match &self.currency {
            Some(c) => {
                proof {
                    reveal_strlit(" ");
                    assert(" "@ =~= seq![' ']);
                }
                out.append(" ");
                out.append(c.as_str());
            },
            None => {},
        }
        out
    }
}

impl PartialOrd for IncompleteAmount {
    fn partial_cmp(&self, other: &IncompleteAmount) -> (r: Option<Ordering>) {
        if same_optional_text(&self.currency, &other.currency) {
            match (&self.num, &other.num) {
                (None, None) => Some(Ordering::Equal),
                (None, Some(_)) => Some(Ordering::Less),
                (Some(_), None) => Some(Ordering::Greater),
                (Some(x), Some(y)) => Some(x.compare_to(y)),
            }
        } else {
            None
        }
    }
}

impl vstd::std_specs::cmp::PartialOrdSpecImpl for IncompleteAmount {
    open spec fn obeys_partial_cmp_spec() -> bool {
        true
    }

    open spec fn partial_cmp_spec(&self, other: &IncompleteAmount) -> Option<Ordering> {
        self@.compare(other@)
    }
}

impl TryFrom<IncompleteAmount> for Amount {
    type Error = Error;

    fn try_from(val: IncompleteAmount) -> (r: Result<Amount, Error>) {
        match val {
            IncompleteAmount { num: Some(num), currency: Some(currency) } => Ok(
                Amount { num, currency },
            ),
            _ => Err(Error::IncompleteConversion),
        }
    }
}

impl vstd::std_specs::convert::TryFromSpecImpl<IncompleteAmount> for Amount {
    open spec fn obeys_try_from_spec() -> bool {
        true
    }

    open spec fn try_from_spec(val: IncompleteAmount) -> Result<Amount, Error> {
        match (val.num, val.currency) {
            (Some(num), Some(currency)) => Ok(Amount { num, currency }),
            _ => Err(Error::IncompleteConversion),
        }
    }
}

impl From<Amount> for IncompleteAmount {
    fn from(val: Amount) -> (r: IncompleteAmount) {
        IncompleteAmount { num: Some(val.num), currency: Some(val.currency) }
    }
}

impl vstd::std_specs::convert::FromSpecImpl<Amount> for IncompleteAmount {
    open spec fn obeys_from_spec() -> bool {
        true
    }

    open spec fn from_spec(val: Amount) -> IncompleteAmount {
        IncompleteAmount { num: Some(val.num), currency: Some(val.currency) }
    }
}

/// Two amounts can be compared exactly when they are in the same currency.
pub proof fn lemma_comparable_iff_same_currency(a: Amount, b: Amount)
    ensures
        a@.currency == b@.currency <==> a.partial_cmp_spec(&b) is Some,
        a@.currency == b@.currency ==> a.partial_cmp_spec(&b) == Some(a@.num.compare(b@.num)),
{
}

/// The order of amounts is a strict partial order: no amount is below
/// itself, and the order is transitive. Amounts in different currencies are
/// neither below nor above nor equal to one another.
pub proof fn lemma_order_is_strict_partial(a: Amount, b: Amount, c: Amount)
    ensures
        a.partial_cmp_spec(&a) == Some(Ordering::Equal),
        a.partial_cmp_spec(&b) == Some(Ordering::Less) <==> b.partial_cmp_spec(&a) == Some(
            Ordering::Greater,
        ),
        a.partial_cmp_spec(&b) == Some(Ordering::Less) && b.partial_cmp_spec(&c) == Some(
            Ordering::Less,
        ) ==> a.partial_cmp_spec(&c) == Some(Ordering::Less),
        a@.currency != b@.currency ==> a.partial_cmp_spec(&b) is None && b.partial_cmp_spec(&a)
            is None,
{
    crate::decimal::lemma_order_is_strict(a@.num, b@.num, c@.num);
    crate::decimal::lemma_compare(a@.num, b@.num);
    crate::decimal::lemma_compare(b@.num, c@.num);
    crate::decimal::lemma_compare(a@.num, c@.num);
    crate::decimal::lemma_compare(a@.num, a@.num);
}

/// An incomplete amount converts to an amount exactly when it has both its
/// number and its currency, and then to the amount of these two.
pub proof fn lemma_conversion_needs_both(val: IncompleteAmount)
    ensures
        Amount::try_from_spec(val) is Ok <==> val.num is Some && val.currency is Some,
        Amount::try_from_spec(val) is Ok ==> Amount::try_from_spec(val)->Ok_0 == (Amount {
            num: val.num->0,
            currency: val.currency->0,
        }),
        Amount::try_from_spec(val) is Err ==> Amount::try_from_spec(val)->Err_0
            == Error::IncompleteConversion,
{
}

/// An amount, made incomplete and converted back, is the amount that it was;
/// made incomplete, it has both its parts.
pub proof fn lemma_conversion_round_trip(a: Amount)
    ensures
        IncompleteAmount::from_spec(a) == (IncompleteAmount {
            num: Some(a.num),
            currency: Some(a.currency),
        }),
        Amount::try_from_spec(IncompleteAmount::from_spec(a)) == Ok::<Amount, Error>(a),
{
}

} // verus!
