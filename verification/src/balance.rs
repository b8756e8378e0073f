//! Balancing: completing a transaction against the holdings of its
//! accounts and checking that its weights sum to zero in every currency.
//!
//! A transaction as written is unresolved. Resolving it books every
//! posting that reduces lots held at cost, computes the weight of every
//! posting, and infers the amount of the one posting that may be written
//! without a number. A resolved transaction is balanced when the sum of its
//! weights in each currency is within a tolerance of zero.

use crate::account::Account;
use crate::amount::{Amount, AmountView, IncompleteAmount};
use crate::booking::{
    book_reduction, cost_of, gives_negative, resolution, shares, shares_valid, Booked,
    BookedModel, Booking, LotReduction, Share,
};
use crate::decimal::{pow10, Dec, Decimal};
use crate::error::{Error, ErrorModel, Failure, FailureModel};
use crate::position::{CostSpec, Position};
use crate::posting::{amount_or_overflow, weight, weight_of, Posting};
use crate::transaction::Transaction;
use vstd::pervasive::VecAdditionalExecFns;
use vstd::prelude::*;

verus! {

/// What one account holds when a transaction is applied: its lots and the
/// booking method that it was opened with.
#[derive(Clone, Debug, PartialEq, Eq)]
pub struct Holding {
    pub account: Account,
    pub booking: Option<Booking>,
    pub lots: Vec<Position>,
}

impl Holding {
    pub fn new(account: Account, booking: Option<Booking>, lots: Vec<Position>) -> (r: Holding)
        ensures
            r.account == account,
            r.booking == booking,
            r.lots == lots,
    {
        Holding { account, booking, lots }
    }
}

/// The models of a sequence of amounts.
pub open spec fn amounts(v: Seq<Amount>) -> Seq<AmountView> {
    Seq::new(v.len(), |i: int| v[i]@)
}

/// The place, at or behind `from`, of the first holding of `account`.
pub open spec fn first_holding(holdings: Seq<Holding>, account: &Account, from: nat) -> Option<
    usize,
>
    decreases holdings.len() - from,
{
    if from >= holdings.len() {
        None
    } else if holdings[from as int].account@ == account@ {
        Some(from as usize)
    } else {
        first_holding(holdings, account, from + 1)
    }
}

/// The lots that `account` holds: those of its first holding, or none.
pub open spec fn lots_of(holdings: Seq<Holding>, account: &Account) -> Seq<Position> {
    match first_holding(holdings, account, 0) {
        Some(i) => holdings[i as int].lots@,
        None => Seq::empty(),
    }
}

/// The booking method of `account`: that of its first holding, or `Strict`.
pub open spec fn method_of(holdings: Seq<Holding>, account: &Account) -> Booking {
    match first_holding(holdings, account, 0) {
        Some(i) => match holdings[i as int].booking {
            Some(b) => b,
            None => Booking::Strict,
        },
        None => Booking::Strict,
    }
}

/// The amount that `a` is, where it has both its number and its currency.
pub open spec fn completed(a: &IncompleteAmount) -> Result<Amount, Error> {
    match (a.num, a.currency) {
        (Some(num), Some(currency)) => Ok(Amount { num, currency }),
        _ => Err(Error::IncompleteConversion),
    }
}

/// The weight of `units` at the cost that `spec` writes, where no lot is
/// booked: the units times the cost of one unit, plus the cost of all units
/// with the sign of the units. The specification must name a currency and
/// at least one number (`IncompleteConversion`), none of them negative
/// (`NegativeCostOrPrice`).
pub open spec fn nominal_weight(units: &Amount, spec: &CostSpec) -> Result<AmountView, Error> {
    if gives_negative(spec) {
        Err(Error::NegativeCostOrPrice)
    } else if spec.currency is None || (spec.number_per is None && spec.number_total is None) {
        Err(Error::IncompleteConversion)
    } else {
        let currency = spec.currency->0@;
        let per = match spec.number_per {
            Some(p) => units.num@.checked_mul(p@),
            None => Some(Dec { mantissa: 0, scale: 0 }),
        };
        let total = match spec.number_total {
            Some(t) => units.num@.signum().checked_mul(t@),
            None => Some(Dec { mantissa: 0, scale: 0 }),
        };
        match (per, total) {
            (Some(x), Some(y)) => amount_or_overflow(x.checked_add(y), currency),
            _ => Err(Error::Overflow),
        }
    }
}

/// The weights of the units taken from lots: for each of the first `n`
/// shares, its units times the cost of one unit of its lot, negative, in
/// the currency of that cost.
pub open spec fn share_weights(lots: Seq<Position>, taken: Seq<Share>, n: nat) -> Result<
    Seq<AmountView>,
    Error,
>
    decreases n,
{
    if n == 0 {
        Ok(Seq::empty())
    } else {
        match share_weights(lots, taken, (n - 1) as nat) {
            Ok(w) => {
                let s = taken[n - 1];
                match s.units.neg().checked_mul(cost_of(lots, s.lot)) {
                    Some(v) => Ok(
                        w.push(
                            AmountView {
                                num: v,
                                currency: lots[s.lot as int].cost->0.currency@,
                            },
                        ),
                    ),
                    None => Err(Error::Overflow),
                }
            },
            Err(e) => Err(e),
        }
    }
}

/// The weights that the outcome `booked` of a reduction of `units` under
/// `spec` gives. Units taken from lots weigh what they cost. Units taken
/// from merged lots weigh their part of what the merged lots cost together:
/// that cost times the units taken, divided by the units held.
pub open spec fn booked_weights(
    units: &Amount,
    spec: &CostSpec,
    lots: Seq<Position>,
    booked: BookedModel,
) -> Result<Seq<AmountView>, Error> {
    match booked {
        BookedModel::Lots(taken) => share_weights(lots, taken, taken.len()),
        BookedModel::Merged { lots: _, held, value, cost: _, currency, taken } => match amount_or_overflow(
            match taken.neg().checked_mul(value) {
                Some(part) => part.checked_div(held),
                None => None,
            },
            currency,
        ) {
            Ok(w) => Ok(seq![w]),
            Err(e) => Err(e),
        },
        BookedModel::Nominal => match nominal_weight(units, spec) {
            Ok(w) => Ok(seq![w]),
            Err(e) => Err(e),
        },
    }
}

/// Mathematical model of a [`ResolvedPosting`].
pub struct ResolvedPostingModel {
    pub units: AmountView,
    pub booked: Option<BookedModel>,
    pub weights: Seq<AmountView>,
}

/// A posting after resolution: its units, the outcome of booking where it
/// reduced lots held at cost, and its weights. A posting has one weight,
/// but for a reduction that takes from several lots, which has one for each.
#[derive(Clone, Debug, PartialEq, Eq)]
pub struct ResolvedPosting {
    pub units: Amount,
    pub booked: Option<Booked>,
    pub weights: Vec<Amount>,
}

impl View for ResolvedPosting {
    type V = ResolvedPostingModel;

    open spec fn view(&self) -> ResolvedPostingModel {
        ResolvedPostingModel {
            units: self.units@,
            booked: match self.booked {
                Some(b) => Some(b@),
                None => None,
            },
            weights: amounts(self.weights@),
        }
    }
}

/// What a posting that is written with its number resolves to.
///
/// - Units or price without their currency, or a price without its number:
///   `IncompleteConversion`.
/// - A negative price: `NegativeCostOrPrice`.
/// - Without a cost: one weight, by [`weight_of`].
/// - With a cost and negative units: the reduction is booked against the
///   lots of the account, by its booking method, and the weights are those
///   of the outcome ([`booked_weights`]).
/// - With a cost and units that are not negative: one weight, by
///   [`nominal_weight`].
pub open spec fn posting_resolution(posting: &Posting, holdings: Seq<Holding>) -> Result<
    ResolvedPostingModel,
    Error,
> {
    match completed(&posting.units) {
        Err(e) => Err(e),
        Ok(units) => {
            let price = match posting.price {
                Some(p) => match completed(&p) {
                    Ok(a) => Ok(Some(a)),
                    Err(e) => Err(e),
                },
                None => Ok(None),
            };
            match price {
                Err(e) => Err(e),
                Ok(price) => if price matches Some(a) && a.num@.mantissa < 0 {
                    Err(Error::NegativeCostOrPrice)
                } else {
                    match posting.cost {
                        None => match weight_of(
                            &units,
                            None,
                            match price {
                                Some(a) => Some(&a),
                                None => None,
                            },
                            posting.price_is_total,
                        ) {
                            Ok(w) => Ok(
                                ResolvedPostingModel {
                                    units: units@,
                                    booked: None,
                                    weights: seq![w],
                                },
                            ),
                            Err(e) => Err(e),
                        },
                        Some(spec) => if units.num@.mantissa < 0 {
                            let lots = lots_of(holdings, &posting.account);
                            match resolution(
                                &units,
                                &spec,
                                lots,
                                method_of(holdings, &posting.account),
                            ) {
                                Ok(booked) => match booked_weights(&units, &spec, lots, booked) {
                                    Ok(w) => Ok(
                                        ResolvedPostingModel {
                                            units: units@,
                                            booked: Some(booked),
                                            weights: w,
                                        },
                                    ),
                                    Err(e) => Err(e),
                                },
                                Err(e) => Err(e),
                            }
                        } else {
                            match nominal_weight(&units, &spec) {
                                Ok(w) => Ok(
                                    ResolvedPostingModel {
                                        units: units@,
                                        booked: None,
                                        weights: seq![w],
                                    },
                                ),
                                Err(e) => Err(e),
                            }
                        },
                    }
                },
            }
        },
    }
}

fn complete(a: &IncompleteAmount) -> (r: Result<Amount, Error>)
    ensures
        r == completed(a),
{
    match (&a.num, &a.currency) {
        (Some(num), Some(currency)) => Ok(Amount { num: *num, currency: currency.clone() }),
        _ => Err(Error::IncompleteConversion),
    }
}

fn find_holding(holdings: &Vec<Holding>, account: &Account) -> (r: Option<usize>)
    ensures
        r == first_holding(holdings@, account, 0),
        r matches Some(i) ==> i < holdings@.len(),
{
    let mut i: usize = 0;
    while i < holdings.len()
        invariant
            i <= holdings.len(),
            first_holding(holdings@, account, 0) == first_holding(holdings@, account, i as nat),
        decreases holdings.len() - i,
    {
        if holdings[i].account.same_as(account) {
            return Some(i);
        }
        i = i + 1;
    }
    None
}

fn nominal(units: &Amount, spec: &CostSpec) -> (r: Result<Amount, Error>)
    ensures
        match nominal_weight(units, spec) {
            Ok(w) => r is Ok && r->Ok_0@ == w,
            Err(e) => r == Err::<Amount, Error>(e),
        },
{
    let negative_per: bool = match &spec.number_per {
        Some(p) => p.is_negative(),
        None => false,
    };
    let negative_total: bool = match &spec.number_total {
        Some(t) => t.is_negative(),
        None => false,
    };
    if negative_per || negative_total {
        return Err(Error::NegativeCostOrPrice);
    }
    let currency: &String = match &spec.currency {
        Some(c) => c,
        None => { return Err(Error::IncompleteConversion); },
    };
    if spec.number_per.is_none() && spec.number_total.is_none() {
        return Err(Error::IncompleteConversion);
    }
    let per: Option<Decimal> = match &spec.number_per {
        Some(p) => units.num.checked_mul(p),
        None => Some(Decimal::zero()),
    };
    let total: Option<Decimal> = match &spec.number_total {
        Some(t) => units.num.signum().checked_mul(t),
        None => Some(Decimal::zero()),
    };
    match (per, total) {
        (Some(x), Some(y)) => match x.checked_add(&y) {
            Some(sum) => Ok(Amount { num: sum, currency: currency.clone() }),
            None => Err(Error::Overflow),
        },
        _ => Err(Error::Overflow),
    }
}

fn weights_of_shares(lots: &Vec<Position>, taken: &Vec<LotReduction>) -> (r: Result<
    Vec<Amount>,
    Error,
>)
    requires
        shares_valid(lots@, shares(taken@)),
    ensures
        match share_weights(lots@, shares(taken@), taken@.len()) {
            Ok(w) => r is Ok && amounts(r->Ok_0@) == w,
            Err(e) => r == Err::<Vec<Amount>, Error>(e),
        },
{
    let mut out: Vec<Amount> = Vec::new();
    let mut k: usize = 0;
    proof {
        assert(amounts(out@) =~= Seq::<AmountView>::empty());
    }
    while k < taken.len()
        invariant
            k <= taken.len(),
            shares_valid(lots@, shares(taken@)),
            share_weights(lots@, shares(taken@), k as nat) == Ok::<Seq<AmountView>, Error>(
                amounts(out@),
            ),
        decreases taken.len() - k,
    {
        let share: &LotReduction = &taken[k];
        proof {
            assert(shares(taken@)[k as int] == share@);
        }
        let lot: &Position = &lots[share.lot];
        let cost: &crate::position::Cost = match &lot.cost {
            Some(c) => c,
            None => vstd::pervasive::unreached(),
        };
        match share.units.neg().checked_mul(&cost.number) {
            Some(v) => {
                let w: Amount = Amount { num: v, currency: cost.currency.clone() };
                proof {
                    assert(amounts(out@.push(w)) =~= amounts(out@).push(w@));
                }
                out.push(w);
            },
            None => {
                proof {
                    lemma_share_weights_fail(lots@, shares(taken@), (k + 1) as nat, taken@.len());
                }
                return Err(Error::Overflow);
            },
        }
        k = k + 1;
    }
    Ok(out)
}

/// Once the weights of the first `n` shares are out of range, so are those
/// of more.
proof fn lemma_share_weights_fail(lots: Seq<Position>, taken: Seq<Share>, n: nat, m: nat)
    requires
        n <= m,
        share_weights(lots, taken, n) == Err::<Seq<AmountView>, Error>(Error::Overflow),
    ensures
        share_weights(lots, taken, m) == Err::<Seq<AmountView>, Error>(Error::Overflow),
    decreases m,
{
    if n < m {
        lemma_share_weights_fail(lots, taken, n, (m - 1) as nat);
    }
}

fn one_weight(w: Result<Amount, Error>) -> (r: Result<Vec<Amount>, Error>)
    ensures
        match w {
            Ok(a) => r is Ok && amounts(r->Ok_0@) == seq![a@],
            Err(e) => r == Err::<Vec<Amount>, Error>(e),
        },
{
    match w {
        Ok(a) => {
            let mut out: Vec<Amount> = Vec::new();
            out.push(a);
            proof {
                assert(amounts(out@) =~= seq![a@]);
            }
            Ok(out)
        },
        Err(e) => Err(e),
    }
}

fn weights_of_booked(units: &Amount, spec: &CostSpec, lots: &Vec<Position>, booked: &Booked) -> (r:
    Result<Vec<Amount>, Error>)
    requires
        booked@ matches BookedModel::Lots(taken) ==> shares_valid(lots@, taken),
    ensures
        match booked_weights(units, spec, lots@, booked@) {
            Ok(w) => r is Ok && amounts(r->Ok_0@) == w,
            Err(e) => r == Err::<Vec<Amount>, Error>(e),
        },
{
    match booked {
        Booked::Lots(taken) => weights_of_shares(lots, taken),
        Booked::Merged { lots: _, held, value, cost: _, currency, taken } => {
            let part: Decimal = match taken.neg().checked_mul(value) {
                Some(p) => p,
                None => { return Err(Error::Overflow); },
            };
            match part.checked_div(held) {
                Some(v) => one_weight(Ok(Amount { num: v, currency: currency.clone() })),
                None => Err(Error::Overflow),
            }
        },
        Booked::Nominal => one_weight(nominal(units, spec)),
    }
}

/// The place, at or behind `from`, of the first amount in `currency`; the
/// length of `acc` where there is none.
pub open spec fn position(acc: Seq<AmountView>, currency: Seq<char>, from: nat) -> nat
    decreases acc.len() - from,
{
    if from >= acc.len() {
        acc.len()
    } else if acc[from as int].currency == currency {
        from
    } else {
        position(acc, currency, from + 1)
    }
}

/// The sums `acc` with the weight `w` added to the sum of its currency; a
/// currency that has no sum yet gets one behind the others. `None` where the
/// sum is out of range.
pub open spec fn added(acc: Seq<AmountView>, w: AmountView) -> Option<Seq<AmountView>> {
    let i = position(acc, w.currency, 0);
    if i < acc.len() {
        match acc[i as int].num.checked_add(w.num) {
            Some(sum) => Some(acc.update(i as int, AmountView { num: sum, currency: w.currency })),
            None => None,
        }
    } else {
        Some(acc.push(w))
    }
}

/// The sum of the first `n` weights in each currency, the currencies in the
/// order in which they first occur. `None` where a sum is out of range.
pub open spec fn residuals_upto(weights: Seq<AmountView>, n: nat) -> Option<Seq<AmountView>>
    decreases n,
{
    if n == 0 {
        Some(Seq::empty())
    } else {
        match residuals_upto(weights, (n - 1) as nat) {
            Some(acc) => added(acc, weights[n - 1]),
            None => None,
        }
    }
}

/// The sum of the weights in each currency.
pub open spec fn residuals(weights: Seq<AmountView>) -> Option<Seq<AmountView>> {
    residuals_upto(weights, weights.len())
}

/// Whether `num` is within `tolerance` of zero.
pub open spec fn within(num: Dec, tolerance: Dec) -> bool {
    num.abs().num_le(tolerance)
}

/// The first sum, at or behind `from`, that is not within `tolerance` of
/// zero.
pub open spec fn first_unbalanced(sums: Seq<AmountView>, tolerance: Dec, from: nat) -> Option<
    AmountView,
>
    decreases sums.len() - from,
{
    if from >= sums.len() {
        None
    } else if !within(sums[from as int].num, tolerance) {
        Some(sums[from as int])
    } else {
        first_unbalanced(sums, tolerance, from + 1)
    }
}

/// The largest number of decimal places among the numbers of the first `n`
/// postings.
pub open spec fn finest_scale(postings: Seq<Posting>, n: nat) -> nat
    decreases n,
{
    if n == 0 {
        0
    } else {
        let before = finest_scale(postings, (n - 1) as nat);
        match postings[n - 1].units.num {
            Some(d) => if d@.scale > before {
                d@.scale
            } else {
                before
            },
            None => before,
        }
    }
}

/// The tolerance that the postings imply: half of the smallest unit in
/// which one of their numbers is written, that is `5 / 10^(s+1)` for the
/// largest number `s` of decimal places. At 28 places, the most that a
/// number can have, half a unit cannot be written and no sum that is not
/// zero is within it: the tolerance is zero.
pub open spec fn default_tolerance(postings: Seq<Posting>) -> Dec {
    let s = finest_scale(postings, postings.len());
    if s < crate::decimal::MAX_SCALE {
        Dec { mantissa: 5, scale: s + 1 }
    } else {
        Dec { mantissa: 0, scale: s }
    }
}

fn place(acc: &Vec<Amount>, currency: &String) -> (r: usize)
    ensures
        r == position(amounts(acc@), currency@, 0),
        r <= acc@.len(),
{
    let mut i: usize = 0;
    while i < acc.len()
        invariant
            i <= acc.len(),
            position(amounts(acc@), currency@, 0) == position(amounts(acc@), currency@, i as nat),
        decreases acc.len() - i,
    {
        if acc[i].currency == *currency {
            return i;
        }
        i = i + 1;
    }
    i
}

fn add_weight(acc: &mut Vec<Amount>, w: Amount) -> (r: bool)
    ensures
        match added(amounts(old(acc)@), w@) {
            Some(a) => r && amounts(final(acc)@) == a,
            None => !r,
        },
{
    let i: usize = place(acc, &w.currency);
    if i < acc.len() {
        match acc[i].num.checked_add(&w.num) {
            Some(sum) => {
                let ghost before = acc@;
                let entry: Amount = Amount { num: sum, currency: w.currency };
                acc.set(i, entry);
                proof {
                    assert(amounts(acc@) =~= amounts(before).update(i as int, entry@));
                }
                true
            },
            None => false,
        }
    } else {
        let ghost before = acc@;
        acc.push(w);
        proof {
            assert(amounts(acc@) =~= amounts(before).push(w@));
        }
        true
    }
}

/// Once the first `n` weights cannot be summed, more of them cannot.
proof fn lemma_residuals_fail(weights: Seq<AmountView>, n: nat, m: nat)
    requires
        n <= m,
        residuals_upto(weights, n) is None,
    ensures
        residuals_upto(weights, m) is None,
    decreases m,
{
    if n < m {
        lemma_residuals_fail(weights, n, (m - 1) as nat);
    }
}

/// The sum of `weights` in each currency, the currencies in the order in
/// which they first occur; `None` where a sum is out of range.
pub fn sum_by_currency(weights: &Vec<Amount>) -> (r: Option<Vec<Amount>>)
    ensures
        match residuals(amounts(weights@)) {
            Some(sums) => r is Some && amounts(r->0@) == sums,
            None => r is None,
        },
{
    let mut acc: Vec<Amount> = Vec::new();
    let mut k: usize = 0;
    proof {
        assert(amounts(acc@) =~= Seq::<AmountView>::empty());
    }
    while k < weights.len()
        invariant
            k <= weights.len(),
            residuals_upto(amounts(weights@), k as nat) == Some(amounts(acc@)),
        decreases weights.len() - k,
    {
        let w: Amount = Amount { num: weights[k].num, currency: weights[k].currency.clone() };
        proof {
            assert(w@ == amounts(weights@)[k as int]);
        }
        if !add_weight(&mut acc, w) {
            proof {
                lemma_residuals_fail(amounts(weights@), (k + 1) as nat, weights@.len());
            }
            return None;
        }
        k = k + 1;
    }
    Some(acc)
}

/// The first of `sums` that is not within `tolerance` of zero.
pub fn find_unbalanced(sums: &Vec<Amount>, tolerance: &Decimal) -> (r: Option<usize>)
    ensures
        match r {
            Some(i) => i < sums@.len() && first_unbalanced(amounts(sums@), tolerance@, 0) == Some(
                sums@[i as int]@,
            ),
            None => first_unbalanced(amounts(sums@), tolerance@, 0) is None,
        },
{
    let mut i: usize = 0;
    while i < sums.len()
        invariant
            i <= sums.len(),
            first_unbalanced(amounts(sums@), tolerance@, 0) == first_unbalanced(
                amounts(sums@),
                tolerance@,
                i as nat,
            ),
        decreases sums.len() - i,
    {
        if !sums[i].num.abs().num_le(tolerance) {
            return Some(i);
        }
        i = i + 1;
    }
    None
}

/// The tolerance that the postings imply.
pub fn tolerance_of(postings: &Vec<Posting>) -> (r: Decimal)
    ensures
        r@ == default_tolerance(postings@),
{
    let mut scale: u32 = 0;
    let mut k: usize = 0;
    while k < postings.len()
        invariant
            k <= postings.len(),
            scale == finest_scale(postings@, k as nat),
            scale <= crate::decimal::MAX_SCALE,
        decreases postings.len() - k,
    {
        match &postings[k].units.num {
            Some(d) => {
                if d.scale() > scale {
                    scale = d.scale();
                }
            },
            None => {},
        }
        k = k + 1;
    }
    let made: Option<Decimal> = if scale < crate::decimal::MAX_SCALE {
        Decimal::try_new(5, scale + 1)
    } else {
        Decimal::try_new(0, scale)
    };
    match made {
        Some(d) => d,
        None => vstd::pervasive::unreached(),
    }
}

fn resolve_posting(posting: &Posting, holdings: &Vec<Holding>) -> (r: Result<
    ResolvedPosting,
    Error,
>)
    ensures
        match posting_resolution(posting, holdings@) {
            Ok(m) => r is Ok && r->Ok_0@ == m,
            Err(e) => r == Err::<ResolvedPosting, Error>(e),
        },
{
    let units: Amount = match complete(&posting.units) {
        Ok(a) => a,
        Err(e) => { return Err(e); },
    };
    let price: Option<Amount> = match &posting.price {
        Some(p) => match complete(p) {
            Ok(a) => Some(a),
            Err(e) => { return Err(e); },
        },
        None => None,
    };
    let negative_price: bool = match &price {
        Some(a) => a.num.is_negative(),
        None => false,
    };
    if negative_price {
        return Err(Error::NegativeCostOrPrice);
    }
    match &posting.cost {
        None => {
            let w: Result<Amount, Error> = weight(&units, None, price.as_ref(), posting.price_is_total);
            match one_weight(w) {
                Ok(weights) => Ok(ResolvedPosting { units, booked: None, weights }),
                Err(e) => Err(e),
            }
        },
        Some(spec) => {
            if units.num.is_negative() {
                let empty: Vec<Position> = Vec::new();
                let found: Option<usize> = find_holding(holdings, &posting.account);
                let lots: &Vec<Position> = match found {
                    Some(i) => &holdings[i].lots,
                    None => &empty,
                };
                let method: Booking = match found {
                    Some(i) => Booking::or_default(holdings[i].booking),
                    None => Booking::Strict,
                };
                let booked: Booked = match book_reduction(&units, spec, lots, method) {
                    Ok(b) => b,
                    Err(e) => { return Err(e); },
                };
                match weights_of_booked(&units, spec, lots, &booked) {
                    Ok(weights) => Ok(ResolvedPosting { units, booked: Some(booked), weights }),
                    Err(e) => Err(e),
                }
            } else {
                match one_weight(nominal(&units, spec)) {
                    Ok(weights) => Ok(ResolvedPosting { units, booked: None, weights }),
                    Err(e) => Err(e),
                }
            }
        },
    }
}

/// The models of a sequence of resolved postings.
pub open spec fn models(v: Seq<ResolvedPosting>) -> Seq<ResolvedPostingModel> {
    Seq::new(v.len(), |i: int| v[i]@)
}

/// The weights of the first `n` postings, one after the other.
pub open spec fn all_weights(postings: Seq<ResolvedPostingModel>, n: nat) -> Seq<AmountView>
    decreases n,
{
    if n == 0 {
        Seq::empty()
    } else {
        all_weights(postings, (n - 1) as nat) + postings[n - 1].weights
    }
}

/// The sum in `currency` among `sums`; zero where there is none.
pub open spec fn residual_in(sums: Seq<AmountView>, currency: Seq<char>) -> Dec {
    let i = position(sums, currency, 0);
    if i < sums.len() {
        sums[i as int].num
    } else {
        Dec { mantissa: 0, scale: 0 }
    }
}

/// Those of the first `n` sums that are not zero.
pub open spec fn open_sums(sums: Seq<AmountView>, n: nat) -> Seq<AmountView>
    decreases n,
{
    if n == 0 {
        Seq::empty()
    } else {
        let before = open_sums(sums, (n - 1) as nat);
        if sums[n - 1].num.mantissa != 0 {
            before.push(sums[n - 1])
        } else {
            before
        }
    }
}

/// The amount of the posting that is written without its number, given the
/// weights of all other postings: what brings the sum in its currency to
/// zero. Where it is written without its currency too, the currency is that
/// of the one sum that is not zero; with none or several such sums the
/// amount is `AmbiguousAutobalance`.
pub open spec fn inferred(currency: Option<Seq<char>>, weights: Seq<AmountView>) -> Result<
    AmountView,
    Error,
> {
    match residuals(weights) {
        None => Err(Error::Overflow),
        Some(sums) => match currency {
            Some(c) => Ok(AmountView { num: residual_in(sums, c).neg(), currency: c }),
            None => {
                let open = open_sums(sums, sums.len());
                if open.len() == 1 {
                    Ok(AmountView { num: open[0].num.neg(), currency: open[0].currency })
                } else {
                    Err(Error::AmbiguousAutobalance)
                }
            },
        },
    }
}

/// What went wrong in a transaction, and at which posting; a fault of the
/// transaction as a whole names no posting.
pub struct Fault {
    pub posting: Option<usize>,
    pub error: ErrorModel,
}

/// The fault with the day of the transaction and the account of the
/// posting at fault.
pub open spec fn attributed(txn: &Transaction, fault: Fault) -> FailureModel {
    FailureModel {
        date: txn.date@,
        posting: fault.posting,
        account: match fault.posting {
            Some(i) => Some(txn.postings@[i as int].account@),
            None => None,
        },
        error: fault.error,
    }
}

/// How far the postings of a transaction are resolved: the postings that
/// are written with their number, and the place of the one that is not.
pub struct Progress {
    pub others: Seq<ResolvedPostingModel>,
    pub gap: Option<usize>,
}

/// The resolution of the first `n` postings. It fails at the first posting
/// that fails; a second posting without its number, or one such posting
/// with a cost or a price, is `AmbiguousAutobalance`.
pub open spec fn resolved_upto(postings: Seq<Posting>, holdings: Seq<Holding>, n: nat) -> Result<
    Progress,
    Fault,
>
    decreases n,
{
    if n == 0 {
        Ok(Progress { others: Seq::empty(), gap: None })
    } else {
        match resolved_upto(postings, holdings, (n - 1) as nat) {
            Err(f) => Err(f),
            Ok(p) => {
                let posting = postings[n - 1];
                let at = Some((n - 1) as usize);
                if posting.units.num is None {
                    if p.gap is Some || posting.cost is Some || posting.price is Some {
                        Err(Fault { posting: at, error: ErrorModel::AmbiguousAutobalance })
                    } else {
                        Ok(Progress { others: p.others, gap: at })
                    }
                } else {
                    match posting_resolution(&posting, holdings) {
                        Ok(r) => Ok(Progress { others: p.others.push(r), gap: p.gap }),
                        Err(e) => Err(Fault { posting: at, error: e@ }),
                    }
                }
            },
        }
    }
}

/// The resolution of a transaction: every posting with its units and
/// weights, the posting without a number with the amount inferred for it.
pub open spec fn resolved(postings: Seq<Posting>, holdings: Seq<Holding>) -> Result<
    Seq<ResolvedPostingModel>,
    Fault,
> {
    match resolved_upto(postings, holdings, postings.len()) {
        Err(f) => Err(f),
        Ok(p) => match p.gap {
            None => Ok(p.others),
            Some(a) => match inferred(
                match postings[a as int].units.currency {
                    Some(c) => Some(c@),
                    None => None,
                },
                all_weights(p.others, p.others.len()),
            ) {
                Ok(amount) => Ok(
                    p.others.insert(
                        a as int,
                        ResolvedPostingModel { units: amount, booked: None, weights: seq![amount] },
                    ),
                ),
                Err(e) => Err(Fault { posting: Some(a), error: e@ }),
            },
        },
    }
}

/// Whether the weights of resolved postings sum to zero within `tolerance`
/// in every currency; else the first currency in which they do not, with
/// its sum, as `UnbalancedTransaction`, or `Overflow` where a sum is out of
/// range.
pub open spec fn balance_check(postings: Seq<ResolvedPostingModel>, tolerance: Dec) -> Result<
    (),
    ErrorModel,
> {
    match residuals(all_weights(postings, postings.len())) {
        None => Err(ErrorModel::Overflow),
        Some(sums) => match first_unbalanced(sums, tolerance, 0) {
            Some(a) => Err(
                ErrorModel::UnbalancedTransaction { currency: a.currency, residual: a.num },
            ),
            None => Ok(()),
        },
    }
}

/// The outcome of resolving a transaction and checking its balance, within
/// `tolerance` or, where none is given, within the tolerance that its
/// postings imply.
pub open spec fn balanced(
    postings: Seq<Posting>,
    holdings: Seq<Holding>,
    tolerance: Option<Dec>,
) -> Result<Seq<ResolvedPostingModel>, Fault> {
    match resolved(postings, holdings) {
        Err(f) => Err(f),
        Ok(done) => match balance_check(
            done,
            match tolerance {
                Some(t) => t,
                None => default_tolerance(postings),
            },
        ) {
            Ok(_) => Ok(done),
            Err(e) => Err(Fault { posting: None, error: e }),
        },
    }
}

/// A transaction after resolution: its postings, each with units and
/// weights.
#[derive(Clone, Debug, PartialEq, Eq)]
pub struct Resolved {
    pub postings: Vec<ResolvedPosting>,
}

fn collect_weights(postings: &Vec<ResolvedPosting>) -> (r: Vec<Amount>)
    ensures
        amounts(r@) == all_weights(models(postings@), postings@.len()),
{
    let mut out: Vec<Amount> = Vec::new();
    let mut i: usize = 0;
    proof {
        assert(amounts(out@) =~= Seq::<AmountView>::empty());
    }
    while i < postings.len()
        invariant
            i <= postings.len(),
            amounts(out@) == all_weights(models(postings@), i as nat),
        decreases postings.len() - i,
    {
        let weights: &Vec<Amount> = &postings[i].weights;
        let ghost start = amounts(out@);
        let mut k: usize = 0;
        proof {
            assert(start + amounts(weights@).subrange(0, 0) =~= start);
        }
        while k < weights.len()
            invariant
                k <= weights.len(),
                amounts(out@) == start + amounts(weights@).subrange(0, k as int),
            decreases weights.len() - k,
        {
            let w: Amount = Amount { num: weights[k].num, currency: weights[k].currency.clone() };
            proof {
                assert(w@ == amounts(weights@)[k as int]);
                assert(amounts(out@.push(w)) =~= amounts(out@).push(w@));
                assert(amounts(weights@).subrange(0, k + 1) =~= amounts(weights@).subrange(
                    0,
                    k as int,
                ).push(w@));
                assert(amounts(out@).push(w@) =~= start + amounts(weights@).subrange(0, k + 1));
            }
            out.push(w);
            k = k + 1;
        }
        proof {
            assert(amounts(weights@).subrange(0, weights@.len() as int) =~= amounts(weights@));
            assert(models(postings@)[i as int].weights == amounts(weights@));
        }
        i = i + 1;
    }
    out
}

fn infer(currency: &Option<String>, weights: &Vec<Amount>) -> (r: Result<Amount, Error>)
    ensures
        match inferred(
            match currency {
                Some(c) => Some(c@),
                None => None,
            },
            amounts(weights@),
        ) {
            Ok(a) => r is Ok && r->Ok_0@ == a,
            Err(e) => r == Err::<Amount, Error>(e),
        },
{
    let sums: Vec<Amount> = match sum_by_currency(weights) {
        Some(s) => s,
        None => { return Err(Error::Overflow); },
    };
    match currency {
        Some(c) => {
            let i: usize = place(&sums, c);
            let num: Decimal = if i < sums.len() {
                sums[i].num.neg()
            } else {
                Decimal::zero().neg()
            };
            Ok(Amount { num, currency: c.clone() })
        },
        None => {
            let mut open: Vec<usize> = Vec::new();
            let mut k: usize = 0;
            while k < sums.len()
                invariant
                    k <= sums.len(),
                    open@.len() == open_sums(amounts(sums@), k as nat).len(),
                    forall|j: int|
                        0 <= j < open@.len() ==> (#[trigger] open@[j]) < k && amounts(sums@)[open@[j] as int]
                            == open_sums(amounts(sums@), k as nat)[j],
                decreases sums.len() - k,
            {
                if !sums[k].num.is_zero() {
                    open.push(k);
                }
                k = k + 1;
            }
            if open.len() == 1 {
                let a: &Amount = &sums[open[0]];
                Ok(Amount { num: a.num.neg(), currency: a.currency.clone() })
            } else {
                Err(Error::AmbiguousAutobalance)
            }
        },
    }
}

fn fail(txn: &Transaction, posting: Option<usize>, error: Error) -> (r: Failure)
    requires
        posting matches Some(i) ==> i < txn.postings@.len(),
    ensures
        r@ == attributed(txn, Fault { posting, error: error@ }),
{
    let account: Option<Account> = match posting {
        Some(i) => Some(txn.postings[i].account.duplicate()),
        None => None,
    };
    Failure { date: txn.date, posting, account, error }
}

/// Resolves a transaction against the holdings of its accounts: books its
/// reductions, computes the weight of every posting, and infers the amount
/// of the posting that is written without its number.
pub fn resolve(txn: &Transaction, holdings: &Vec<Holding>) -> (r: Result<Resolved, Failure>)
    ensures
        match resolved(txn.postings@, holdings@) {
            Ok(m) => r is Ok && models(r->Ok_0.postings@) == m,
            Err(f) => r is Err && r->Err_0@ == attributed(txn, f),
        },
{
    let mut others: Vec<ResolvedPosting> = Vec::new();
    let mut gap: Option<usize> = None;
    let mut i: usize = 0;
    proof {
        assert(models(others@) =~= Seq::<ResolvedPostingModel>::empty());
    }
    while i < txn.postings.len()
        invariant
            i <= txn.postings.len(),
            resolved_upto(txn.postings@, holdings@, i as nat) == Ok::<Progress, Fault>(
                Progress { others: models(others@), gap },
            ),
            gap matches Some(a) ==> a < i && others@.len() == i - 1,
            gap is None ==> others@.len() == i,
        decreases txn.postings.len() - i,
    {
        let posting: &Posting = &txn.postings[i];
        if posting.units.num.is_none() {
            if gap.is_some() || posting.cost.is_some() || posting.price.is_some() {
                proof {
                    lemma_resolved_fail(txn.postings@, holdings@, (i + 1) as nat, txn.postings@.len());
                }
                return Err(fail(txn, Some(i), Error::AmbiguousAutobalance));
            }
            gap = Some(i);
        } else {
            match resolve_posting(posting, holdings) {
                Ok(r) => {
                    proof {
                        assert(models(others@.push(r)) =~= models(others@).push(r@));
                    }
                    others.push(r);
                },
                Err(e) => {
                    proof {
                        lemma_resolved_fail(
                            txn.postings@,
                            holdings@,
                            (i + 1) as nat,
                            txn.postings@.len(),
                        );
                    }
                    return Err(fail(txn, Some(i), e));
                },
            }
        }
        i = i + 1;
    }
    match gap {
        None => Ok(Resolved { postings: others }),
        Some(a) => {
            let weights: Vec<Amount> = collect_weights(&others);
            match infer(&txn.postings[a].units.currency, &weights) {
                Ok(amount) => {
                    let mut one: Vec<Amount> = Vec::new();
                    one.push(Amount { num: amount.num, currency: amount.currency.clone() });
                    let entry: ResolvedPosting = ResolvedPosting {
                        units: amount,
                        booked: None,
                        weights: one,
                    };
                    proof {
                        assert(amounts(one@) =~= seq![amount@]);
                        assert(models(others@.insert(a as int, entry)) =~= models(others@).insert(
                            a as int,
                            entry@,
                        ));
                    }
                    others.insert(a, entry);
                    Ok(Resolved { postings: others })
                },
                Err(e) => Err(fail(txn, Some(a), e)),
            }
        },
    }
}

/// Once the first `n` postings fail to resolve, more of them fail alike.
proof fn lemma_resolved_fail(postings: Seq<Posting>, holdings: Seq<Holding>, n: nat, m: nat)
    requires
        n <= m,
        resolved_upto(postings, holdings, n) is Err,
    ensures
        resolved_upto(postings, holdings, m) == resolved_upto(postings, holdings, n),
    decreases m,
{
    if n < m {
        lemma_resolved_fail(postings, holdings, n, (m - 1) as nat);
    }
}

/// Checks that the weights of a resolved transaction sum to zero within
/// `tolerance` in every currency.
pub fn check_balanced(done: &Resolved, tolerance: &Decimal) -> (r: Result<(), Error>)
    ensures
        match balance_check(models(done.postings@), tolerance@) {
            Ok(_) => r is Ok,
            Err(e) => r is Err && r->Err_0@ == e,
        },
{
    let weights: Vec<Amount> = collect_weights(&done.postings);
    let sums: Vec<Amount> = match sum_by_currency(&weights) {
        Some(s) => s,
        None => { return Err(Error::Overflow); },
    };
    match find_unbalanced(&sums, tolerance) {
        Some(i) => Err(
            Error::UnbalancedTransaction {
                currency: sums[i].currency.clone(),
                residual: sums[i].num,
            },
        ),
        None => Ok(()),
    }
}

/// Resolves a transaction and checks its balance, within `tolerance` or,
/// where none is given, within the tolerance that its postings imply.
pub fn balance(txn: &Transaction, holdings: &Vec<Holding>, tolerance: Option<Decimal>) -> (r:
    Result<Resolved, Failure>)
    ensures
        match balanced(
            txn.postings@,
            holdings@,
            match tolerance {
                Some(t) => Some(t@),
                None => None,
            },
        ) {
            Ok(m) => r is Ok && models(r->Ok_0.postings@) == m,
            Err(f) => r is Err && r->Err_0@ == attributed(txn, f),
        },
{
    let done: Resolved = match resolve(txn, holdings) {
        Ok(d) => d,
        Err(f) => { return Err(f); },
    };
    let limit: Decimal = match tolerance {
        Some(t) => t,
        None => tolerance_of(&txn.postings),
    };
    match check_balanced(&done, &limit) {
        Ok(_) => Ok(done),
        Err(e) => Err(fail(txn, None, e)),
    }
}

/// The exact sum of those of the first `n` weights that are in `currency`,
/// as a number of units of `10^-scale`.
pub open spec fn weight_sum(weights: Seq<AmountView>, currency: Seq<char>, scale: nat, n: nat) -> int
    decreases n,
{
    if n == 0 {
        0
    } else {
        weight_sum(weights, currency, scale, (n - 1) as nat) + if weights[n - 1].currency
            == currency {
            weights[n - 1].num.scaled_to(scale)
        } else {
            0
        }
    }
}

/// `position` is a place of `acc` whose amount is in `currency` and before
/// which none is; or it is the length of `acc`, and no amount is.
pub proof fn lemma_position(acc: Seq<AmountView>, currency: Seq<char>, from: nat)
    requires
        from <= acc.len(),
    ensures
        from <= position(acc, currency, from) <= acc.len(),
        position(acc, currency, from) < acc.len() ==> acc[position(acc, currency, from) as int].currency
            == currency,
        forall|j: int| from <= j < position(acc, currency, from) ==> acc[j].currency != currency,
    decreases acc.len() - from,
{
    if from < acc.len() && acc[from as int].currency != currency {
        lemma_position(acc, currency, from + 1);
    }
}

/// Weights of other currencies add nothing to the sum of a currency.
pub proof fn lemma_weight_sum_absent(
    weights: Seq<AmountView>,
    currency: Seq<char>,
    scale: nat,
    n: nat,
)
    requires
        n <= weights.len(),
        forall|k: int| 0 <= k < n ==> weights[k].currency != currency,
    ensures
        weight_sum(weights, currency, scale, n) == 0,
    decreases n,
{
    if n > 0 {
        lemma_weight_sum_absent(weights, currency, scale, (n - 1) as nat);
    }
}

/// The sums by currency are the exact sums of the weights: there is one sum
/// for each currency that occurs among the weights, and written with
/// `scale` decimal places (no fewer than any weight has) it is the sum of
/// the weights in that currency, written with as many.
pub proof fn lemma_residuals_are_sums(weights: Seq<AmountView>, n: nat, scale: nat)
    requires
        n <= weights.len(),
        residuals_upto(weights, n) is Some,
        forall|k: int| 0 <= k < n ==> weights[k].num.scale <= scale,
    ensures
        ({
            let acc = residuals_upto(weights, n)->0;
            &&& forall|i: int, j: int| 0 <= i < j < acc.len() ==> acc[i].currency != acc[j].currency
            &&& forall|k: int|
                0 <= k < n ==> position(acc, (#[trigger] weights[k]).currency, 0) < acc.len()
            &&& forall|i: int|
                0 <= i < acc.len() ==> (#[trigger] acc[i]).num.scale <= scale
                    && acc[i].num.scaled_to(scale) == weight_sum(
                    weights,
                    acc[i].currency,
                    scale,
                    n,
                )
            &&& forall|i: int|
                0 <= i < acc.len() ==> exists|k: int|
                    0 <= k < n && weights[k].currency == (#[trigger] acc[i]).currency
        }),
    decreases n,
{
    if n > 0 {
        let before = residuals_upto(weights, (n - 1) as nat)->0;
        let acc = residuals_upto(weights, n)->0;
        let w = weights[n - 1];
        let c = w.currency;
        let i = position(before, c, 0) as int;
        lemma_residuals_are_sums(weights, (n - 1) as nat, scale);
        lemma_position(before, c, 0);
        if i < before.len() {
            crate::decimal::lemma_add_exact(before[i].num, w.num, scale);
            assert forall|a: int, b: int| 0 <= a < b < acc.len() implies acc[a].currency
                != acc[b].currency by {
                assert(acc[a].currency == before[a].currency);
                assert(acc[b].currency == before[b].currency);
            }
            assert forall|k: int| 0 <= k < n implies position(
                acc,
                (#[trigger] weights[k]).currency,
                0,
            ) < acc.len() by {
                let p = if k < n - 1 {
                    position(before, weights[k].currency, 0) as int
                } else {
                    i
                };
                lemma_position(before, weights[k].currency, 0);
                lemma_position(acc, weights[k].currency, 0);
                assert(acc[p].currency == weights[k].currency);
            }
            assert forall|a: int| 0 <= a < acc.len() implies (#[trigger] acc[a]).num.scale <= scale
                && acc[a].num.scaled_to(scale) == weight_sum(weights, acc[a].currency, scale, n) by {
                if a != i {
                    assert(acc[a] == before[a]);
                }
            }
            assert forall|a: int| 0 <= a < acc.len() implies exists|k: int|
                0 <= k < n && weights[k].currency == (#[trigger] acc[a]).currency by {
                if a != i {
                    assert(acc[a] == before[a]);
                    let k = choose|k: int|
                        0 <= k < n - 1 && weights[k].currency == before[a].currency;
                    assert(weights[k].currency == acc[a].currency);
                } else {
                    assert(weights[n - 1].currency == acc[a].currency);
                }
            }
        } else {
            assert forall|k: int| 0 <= k < n - 1 implies weights[k].currency != c by {
                lemma_position(before, weights[k].currency, 0);
            }
            lemma_weight_sum_absent(weights, c, scale, (n - 1) as nat);
            assert(w.num.scaled_to(scale) == weight_sum(weights, c, scale, n));
            assert forall|k: int| 0 <= k < n implies position(
                acc,
                (#[trigger] weights[k]).currency,
                0,
            ) < acc.len() by {
                let p = if k < n - 1 {
                    position(before, weights[k].currency, 0) as int
                } else {
                    before.len() as int
                };
                lemma_position(before, weights[k].currency, 0);
                lemma_position(acc, weights[k].currency, 0);
                assert(acc[p].currency == weights[k].currency);
            }
            assert forall|a: int| 0 <= a < acc.len() implies (#[trigger] acc[a]).num.scale <= scale
                && acc[a].num.scaled_to(scale) == weight_sum(weights, acc[a].currency, scale, n) by {
                if a < before.len() {
                    assert(acc[a] == before[a]);
                }
            }
            assert forall|a: int| 0 <= a < acc.len() implies exists|k: int|
                0 <= k < n && weights[k].currency == (#[trigger] acc[a]).currency by {
                if a < before.len() {
                    assert(acc[a] == before[a]);
                    let k = choose|k: int|
                        0 <= k < n - 1 && weights[k].currency == before[a].currency;
                    assert(weights[k].currency == acc[a].currency);
                } else {
                    assert(weights[n - 1].currency == acc[a].currency);
                }
            }
        }
    }
}

/// Where no sum at or behind `from` is out of tolerance, every such sum is
/// within it.
pub proof fn lemma_none_unbalanced(sums: Seq<AmountView>, tolerance: Dec, from: nat)
    requires
        first_unbalanced(sums, tolerance, from) is None,
    ensures
        forall|i: int| from <= i < sums.len() ==> within(sums[i].num, tolerance),
    decreases sums.len() - from,
{
    if from < sums.len() {
        lemma_none_unbalanced(sums, tolerance, from + 1);
    }
}

/// A transaction that is accepted balances: the weights of its resolved
/// postings sum, in every currency, to a number within the tolerance of
/// zero.
pub proof fn lemma_accepted_is_balanced(
    postings: Seq<Posting>,
    holdings: Seq<Holding>,
    tolerance: Option<Dec>,
)
    requires
        balanced(postings, holdings, tolerance) is Ok,
    ensures
        ({
            let done = balanced(postings, holdings, tolerance)->Ok_0;
            let limit = match tolerance {
                Some(t) => t,
                None => default_tolerance(postings),
            };
            let sums = residuals(all_weights(done, done.len()));
            &&& resolved(postings, holdings) == Ok::<Seq<ResolvedPostingModel>, Fault>(done)
            &&& sums is Some
            &&& forall|i: int| 0 <= i < sums->0.len() ==> within(sums->0[i].num, limit)
        }),
{
    let done = balanced(postings, holdings, tolerance)->Ok_0;
    let limit = match tolerance {
        Some(t) => t,
        None => default_tolerance(postings),
    };
    let sums = residuals(all_weights(done, done.len()));
    lemma_none_unbalanced(sums->0, limit, 0);
}

/// In a transaction that is accepted, the exact sum of the weights in the
/// currency of any of its weights is within the tolerance of zero.
pub proof fn lemma_accepted_sums_within(
    postings: Seq<Posting>,
    holdings: Seq<Holding>,
    tolerance: Option<Dec>,
    scale: nat,
    k: int,
)
    requires
        balanced(postings, holdings, tolerance) is Ok,
        ({
            let done = balanced(postings, holdings, tolerance)->Ok_0;
            let weights = all_weights(done, done.len());
            &&& 0 <= k < weights.len()
            &&& forall|j: int| 0 <= j < weights.len() ==> weights[j].num.scale <= scale
        }),
    ensures
        ({
            let done = balanced(postings, holdings, tolerance)->Ok_0;
            let weights = all_weights(done, done.len());
            let limit = match tolerance {
                Some(t) => t,
                None => default_tolerance(postings),
            };
            exists|sum: Dec|
                sum.scale <= scale && #[trigger] sum.scaled_to(scale) == weight_sum(
                    weights,
                    weights[k].currency,
                    scale,
                    weights.len(),
                ) && within(sum, limit)
        }),
{
    let done = balanced(postings, holdings, tolerance)->Ok_0;
    let weights = all_weights(done, done.len());
    let limit = match tolerance {
        Some(t) => t,
        None => default_tolerance(postings),
    };
    lemma_accepted_is_balanced(postings, holdings, tolerance);
    lemma_residuals_are_sums(weights, weights.len(), scale);
    let sums = residuals(weights)->0;
    let i = position(sums, weights[k].currency, 0) as int;
    lemma_position(sums, weights[k].currency, 0);
    let sum = sums[i].num;
    assert(sum.scaled_to(scale) == weight_sum(weights, weights[k].currency, scale, weights.len()));
}

/// The amount that is inferred for a posting in `currency` cancels the sum
/// of the other weights in that currency: added to the sums, it leaves
/// exactly zero there.
pub proof fn lemma_inferred_cancels(sums: Seq<AmountView>, currency: Seq<char>)
    requires
        forall|i: int| 0 <= i < sums.len() ==> sums[i].num.in_range(),
    ensures
        ({
            let amount = AmountView { num: residual_in(sums, currency).neg(), currency };
            &&& added(sums, amount) is Some
            &&& residual_in(added(sums, amount)->0, currency).mantissa == 0
        }),
{
    let amount = AmountView { num: residual_in(sums, currency).neg(), currency };
    let i = position(sums, currency, 0) as int;
    lemma_position(sums, currency, 0);
    if i < sums.len() {
        let held = sums[i].num;
        assert(pow10(0) == 1);
        assert(held.scaled_to(held.scale) == held.mantissa);
        assert(held.neg().scaled_to(held.scale) == -held.mantissa);
        let after = added(sums, amount)->0;
        assert forall|j: int| 0 <= j < i implies after[j].currency != currency by {
            assert(after[j] == sums[j]);
        }
        lemma_position_found(after, currency, i);
    } else {
        let after = sums.push(amount);
        assert forall|j: int| 0 <= j < sums.len() implies after[j].currency != currency by {
            assert(after[j] == sums[j]);
        }
        lemma_position_found(after, currency, sums.len() as int);
    }
}

/// `position` is the place `p` whose amount is in `currency` and before
/// which none is.
pub proof fn lemma_position_found(acc: Seq<AmountView>, currency: Seq<char>, p: int)
    requires
        0 <= p < acc.len(),
        acc[p].currency == currency,
        forall|j: int| 0 <= j < p ==> acc[j].currency != currency,
    ensures
        position(acc, currency, 0) == p,
{
    lemma_position(acc, currency, 0);
}

/// At most one posting of a transaction that resolves is written without
/// its number, and every posting has its place in the resolution.
pub proof fn lemma_resolved_has_every_posting(postings: Seq<Posting>, holdings: Seq<Holding>)
    requires
        resolved(postings, holdings) is Ok,
        postings.len() <= usize::MAX,
    ensures
        resolved(postings, holdings)->Ok_0.len() == postings.len(),
        forall|i: int, j: int|
            0 <= i < j < postings.len() ==> !(postings[i].units.num is None
                && postings[j].units.num is None),
{
    lemma_progress(postings, holdings, postings.len());
}

/// How far the resolution of the first `n` postings has come: it holds the
/// postings written with a number, the gap is the one posting without.
proof fn lemma_progress(postings: Seq<Posting>, holdings: Seq<Holding>, n: nat)
    requires
        resolved_upto(postings, holdings, n) is Ok,
        n <= postings.len() <= usize::MAX,
    ensures
        ({
            let p = resolved_upto(postings, holdings, n)->Ok_0;
            &&& p.gap is None ==> p.others.len() == n && forall|i: int|
                0 <= i < n ==> postings[i].units.num is Some
            &&& p.gap matches Some(a) ==> a < n && p.others.len() == n - 1
                && postings[a as int].units.num is None && forall|i: int|
                0 <= i < n && i != a ==> postings[i].units.num is Some
        }),
    decreases n,
{
    if n > 0 {
        lemma_progress(postings, holdings, (n - 1) as nat);
    }
}

} // verus!
