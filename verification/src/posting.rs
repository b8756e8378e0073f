//! Postings: one line of a transaction, and the weight with which it enters
//! the balance of the transaction.

use crate::account::Account;
use crate::amount::{Amount, AmountView, IncompleteAmount};
use crate::decimal::{Dec, Decimal};
use crate::error::Error;
use crate::flags::Flag;
use crate::metadata::Meta;
use crate::position::{Cost, CostSpec};
use vstd::prelude::*;
use vstd::string::StringExecFns;

verus! {

/// One line of a transaction: an account, the units that it receives (or,
/// if negative, gives), and optionally the cost at which they are held and
/// the price at which they were exchanged.
#[derive(Clone, Debug, PartialEq, Eq)]
pub struct Posting {
    /// Account being posted to.
    pub account: Account,
    /// The amount being posted. At most one posting of a transaction may
    /// lack its number.
    pub units: IncompleteAmount,
    /// The cost of the lots that the posting adds or reduces.
    pub cost: Option<CostSpec>,
    /// The price at which the units were exchanged.
    pub price: Option<IncompleteAmount>,
    /// Whether `price` is the price of all units together (`@@`) and not
    /// that of one unit (`@`).
    pub price_is_total: bool,
    pub flag: Option<Flag>,
    pub meta: Meta,
}

/// The amount `num` in `currency`, where `num` is in range.
pub open spec fn amount_or_overflow(num: Option<Dec>, currency: Seq<char>) -> Result<
    AmountView,
    Error,
> {
    match num {
        Some(n) => Ok(AmountView { num: n, currency }),
        None => Err(Error::Overflow),
    }
}

/// The weight of a posting of `units`: what it contributes to the balance
/// of its transaction.
///
/// - A negative cost or price number: `NegativeCostOrPrice`.
/// - With a cost, whether or not there is a price: the units times the cost
///   of one unit, in the currency of the cost.
/// - With a price alone: the units times the price of one unit, or, for a
///   price of all units, the price itself with the sign of the units; in the
///   currency of the price.
/// - With neither: the units themselves.
/// - `Overflow` where the product is out of range.
pub open spec fn weight_of(units: &Amount, cost: Option<&Cost>, price: Option<&Amount>, total: bool) -> Result<
    AmountView,
    Error,
> {
    if (cost matches Some(c) && c.number@.mantissa < 0) || (price matches Some(p) && p.num@.mantissa
        < 0) {
        Err(Error::NegativeCostOrPrice)
    } else {
        match cost {
            Some(c) => amount_or_overflow(units.num@.checked_mul(c.number@), c.currency@),
            None => match price {
                Some(p) => if total {
                    amount_or_overflow(units.num@.signum().checked_mul(p.num@), p.currency@)
                } else {
                    amount_or_overflow(units.num@.checked_mul(p.num@), p.currency@)
                },
                None => Ok(units@),
            },
        }
    }
}

fn amount_of(num: Option<Decimal>, currency: &String) -> (r: Result<Amount, Error>)
    ensures
        match amount_or_overflow(
            match num {
                Some(n) => Some(n@),
                None => None,
            },
            currency@,
        ) {
            Ok(a) => r is Ok && r->Ok_0@ == a,
            Err(e) => r == Err::<Amount, Error>(e),
        },
{
    match num {
        Some(n) => Ok(Amount { num: n, currency: currency.clone() }),
        None => Err(Error::Overflow),
    }
}

/// The weight of a posting of `units` held at `cost` and exchanged at
/// `price`; `total` says that the price is that of all units together.
pub fn weight(units: &Amount, cost: Option<&Cost>, price: Option<&Amount>, total: bool) -> (r:
    Result<Amount, Error>)
    ensures
        match weight_of(units, cost, price, total) {
            Ok(w) => r is Ok && r->Ok_0@ == w,
            Err(e) => r == Err::<Amount, Error>(e),
        },
{
    let negative_cost: bool = match cost {
        Some(c) => c.number.is_negative(),
        None => false,
    };
    let negative_price: bool = match price {
        Some(p) => p.num.is_negative(),
        None => false,
    };
    if negative_cost || negative_price {
        return Err(Error::NegativeCostOrPrice);
    }
    match cost {
        Some(c) => amount_of(units.num.checked_mul(&c.number), &c.currency),
        None => match price {
            Some(p) => {
                if total {
                    let sign: Decimal = units.num.signum();
                    amount_of(sign.checked_mul(&p.num), &p.currency)
                } else {
                    amount_of(units.num.checked_mul(&p.num), &p.currency)
                }
            },
            None => Ok(Amount { num: units.num, currency: units.currency.clone() }),
        },
    }
}

impl Posting {
    /// The posting as text: account and units, then the cost and, behind
    /// `@` or `@@`, the price, where there are any; separated by tabs.
    pub open spec fn text(&self) -> Seq<char> {
        let head = self.account@.full_name() + seq!['\t'] + self.units@.text();
        let with_cost = match self.cost {
            Some(c) => head + seq!['\t'] + c.text(),
            None => head,
        };
        match self.price {
            Some(p) => with_cost + (if self.price_is_total {
                seq!['\t', '@', '@', ' ']
            } else {
                seq!['\t', '@', ' ']
            }) + p@.text(),
            None => with_cost,
        }
    }

    /// A posting of `units` to `account`, without cost, price or flag.
    pub fn new(account: Account, units: IncompleteAmount) -> (r: Posting)
        ensures
            r.account == account,
            r.units == units,
            r.cost is None,
            r.price is None,
            !r.price_is_total,
            r.flag is None,
            r.meta.wf(),
            r.meta.entries().len() == 0,
    {
        Posting {
            account,
            units,
            cost: None,
            price: None,
            price_is_total: false,
            flag: None,
            meta: Meta::new(),
        }
    }

    /// The posting with the cost `cost`.
    pub fn with_cost(self, cost: CostSpec) -> (r: Posting)
        ensures
            r == (Posting { cost: Some(cost), ..self }),
    {
        Posting { cost: Some(cost), ..self }
    }

    /// The posting with the price `price` for one unit.
    pub fn with_price(self, price: IncompleteAmount) -> (r: Posting)
        ensures
            r == (Posting { price: Some(price), price_is_total: false, ..self }),
    {
        Posting { price: Some(price), price_is_total: false, ..self }
    }

    /// The posting with the price `price` for all units together.
    pub fn with_total_price(self, price: IncompleteAmount) -> (r: Posting)
        ensures
            r == (Posting { price: Some(price), price_is_total: true, ..self }),
    {
        Posting { price: Some(price), price_is_total: true, ..self }
    }

    /// The posting with the flag `flag`.
    pub fn with_flag(self, flag: Flag) -> (r: Posting)
        ensures
            r == (Posting { flag: Some(flag), ..self }),
    {
        Posting { flag: Some(flag), ..self }
    }

    /// The posting with the metadata `meta`.
    pub fn with_meta(self, meta: Meta) -> (r: Posting)
        ensures
            r == (Posting { meta, ..self }),
    {
        Posting { meta, ..self }
    }

    /// The posting as text.
    pub fn to_string(&self) -> (r: String)
        ensures
            r@ == self.text(),
    {
        let mut out: String = self.account.to_string();
        proof {
            reveal_strlit("\t");
            reveal_strlit("\t@ ");
            reveal_strlit("\t@@ ");
            assert("\t"@ =~= seq!['\t']);
            assert("\t@ "@ =~= seq!['\t', '@', ' ']);
            assert("\t@@ "@ =~= seq!['\t', '@', '@', ' ']);
        }
        out.append("\t");
        out.append(self.units.to_string().as_str());
        match &self.cost {
            Some(c) => {
                out.append("\t");
                out.append(c.to_string().as_str());
            },
            None => {},
        }
        match &self.price {
            Some(p) => {
                if self.price_is_total {
                    out.append("\t@@ ");
                } else {
                    out.append("\t@ ");
                }
                out.append(p.to_string().as_str());
            },
            None => {},
        }
        out
    }
}

} // verus!
