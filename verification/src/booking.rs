//! Booking: which of the lots that an account holds a reduction takes its
//! units from.
//!
//! A reduction names a number of units of a commodity and says, more or less
//! completely, at what cost the units were acquired. The lots that agree
//! with what it says are its candidates. One candidate, or candidates that
//! together hold exactly the units asked for, leave no choice; otherwise the
//! booking method of the account decides.

use crate::amount::{same_optional_text, Amount};
use crate::currency::Currency;
use crate::date::Ymd;
use crate::decimal::{Dec, Decimal};
use crate::error::Error;
use crate::position::{Cost, CostSpec, Position};
use crate::text::str_eq;
use vstd::prelude::*;

verus! {

/// How an account chooses among several lots that match a reduction.
#[derive(Clone, Copy, Debug, PartialEq, Eq, Structural)]
pub enum Booking {
    /// Refuse to choose.
    Strict,
    /// Choose the one lot whose size is that of the reduction.
    StrictWithSize,
    /// Match nothing: any reduction is accepted as it is written. Its token
    /// is `NONE`.
    NoBooking,
    /// Merge the lots at their average cost.
    Average,
    /// Oldest lots first.
    Fifo,
    /// Newest lots first.
    Lifo,
}

impl Booking {
    /// The booking method that a token names.
    pub open spec fn named(s: Seq<char>) -> Option<Booking> {
        if s == "STRICT"@ {
            Some(Booking::Strict)
        } else if s == "STRICT_WITH_SIZE"@ {
            Some(Booking::StrictWithSize)
        } else if s == "NONE"@ {
            Some(Booking::NoBooking)
        } else if s == "AVERAGE"@ {
            Some(Booking::Average)
        } else if s == "FIFO"@ {
            Some(Booking::Fifo)
        } else if s == "LIFO"@ {
            Some(Booking::Lifo)
        } else {
            None
        }
    }

    /// Reads a booking method from its token.
    pub fn try_from(val: &str) -> (r: Result<Booking, Error>)
        ensures
            match Booking::named(val@) {
                Some(b) => r == Ok::<Booking, Error>(b),
                None => r == Err::<Booking, Error>(Error::UnknownBookingToken),
            },
    {
        if str_eq(val, "STRICT") {
            Ok(Booking::Strict)
        } else if str_eq(val, "STRICT_WITH_SIZE") {
            Ok(Booking::StrictWithSize)
        } else if str_eq(val, "NONE") {
            Ok(Booking::NoBooking)
        } else if str_eq(val, "AVERAGE") {
            Ok(Booking::Average)
        } else if str_eq(val, "FIFO") {
            Ok(Booking::Fifo)
        } else if str_eq(val, "LIFO") {
            Ok(Booking::Lifo)
        } else {
            Err(Error::UnknownBookingToken)
        }
    }

    /// The method of an account: the one it was opened with, or `Strict`.
    pub fn or_default(method: Option<Booking>) -> (r: Booking)
        ensures
            r == match method {
                Some(b) => b,
                None => Booking::Strict,
            },
    {
        match method {
            Some(b) => b,
            None => Booking::Strict,
        }
    }
}

/// Each of the six tokens names its own booking method.
pub proof fn lemma_tokens()
    ensures
        Booking::named("STRICT"@) == Some(Booking::Strict),
        Booking::named("STRICT_WITH_SIZE"@) == Some(Booking::StrictWithSize),
        Booking::named("NONE"@) == Some(Booking::NoBooking),
        Booking::named("AVERAGE"@) == Some(Booking::Average),
        Booking::named("FIFO"@) == Some(Booking::Fifo),
        Booking::named("LIFO"@) == Some(Booking::Lifo),
{
    reveal_strlit("STRICT");
    reveal_strlit("STRICT_WITH_SIZE");
    reveal_strlit("NONE");
    reveal_strlit("AVERAGE");
    reveal_strlit("FIFO");
    reveal_strlit("LIFO");
    assert("STRICT"@.len() == 6 && "STRICT_WITH_SIZE"@.len() == 16 && "AVERAGE"@.len() == 7);
    assert("NONE"@[0] == 'N' && "FIFO"@[0] == 'F' && "LIFO"@[0] == 'L');
}

impl Default for Booking {
    fn default() -> (r: Booking)
        ensures
            r == Booking::Strict,
    {
        Booking::Strict
    }
}

/// Whether the number that `spec` gives agrees with the cost per unit
/// `cost` of a lot, for a reduction of `size` units. A cost per unit alone
/// must equal `cost`. With a total cost, `cost * size` must equal the cost
/// per unit (zero where missing) times `size`, plus the total. `None`
/// where these products and sums are out of range.
pub open spec fn matches_number(spec: &CostSpec, cost: Dec, size: Dec) -> Option<bool> {
    match spec.number_total {
        None => match spec.number_per {
            None => Some(true),
            Some(p) => Some(cost.num_eq(p@)),
        },
        Some(t) => {
            let per = match spec.number_per {
                Some(p) => p@,
                None => Dec { mantissa: 0, scale: 0 },
            };
            match cost.checked_mul(size) {
                Some(whole) => match per.checked_mul(size) {
                    Some(part) => match part.checked_add(t@) {
                        Some(sum) => Some(whole.num_eq(sum)),
                        None => None,
                    },
                    None => None,
                },
                None => None,
            }
        },
    }
}

/// Whether currency, date and label of `spec`, as far as they are present,
/// are those of `cost`.
pub open spec fn matches_origin(spec: &CostSpec, cost: &Cost) -> bool {
    &&& spec.currency matches Some(c) ==> c@ == cost.currency@
    &&& spec.date matches Some(d) ==> d == cost.date
    &&& spec.label matches Some(l) ==> (cost.label matches Some(m) && m@ == l@)
}

/// Whether every present part of `spec` agrees with `cost`, for a reduction
/// of `size` units. `None` where the numbers cannot be compared in range.
pub open spec fn matches_cost(spec: &CostSpec, cost: &Cost, size: Dec) -> Option<bool> {
    if matches_origin(spec, cost) {
        matches_number(spec, cost.number@, size)
    } else {
        Some(false)
    }
}

/// Whether `lot` holds units of the commodity of `units` at cost.
pub open spec fn holds_commodity(units: &Amount, lot: &Position) -> bool {
    lot.cost is Some && lot.units.currency@ == units.currency@ && lot.units.num@.mantissa > 0
}

/// Whether `lot` is a candidate for the reduction `units` under `spec`.
pub open spec fn is_candidate(units: &Amount, spec: &CostSpec, lot: &Position) -> Option<bool> {
    if holds_commodity(units, lot) {
        matches_cost(spec, &lot.cost->0, units.num@.abs())
    } else {
        Some(false)
    }
}

/// The candidates among the first `n` lots, in the order of the inventory.
/// `None` where the numbers of some lot cannot be compared in range.
pub open spec fn candidates_upto(
    units: &Amount,
    spec: &CostSpec,
    lots: Seq<Position>,
    n: nat,
) -> Option<Seq<usize>>
    decreases n,
{
    if n == 0 {
        Some(Seq::empty())
    } else {
        match candidates_upto(units, spec, lots, (n - 1) as nat) {
            Some(c) => match is_candidate(units, spec, &lots[n - 1]) {
                Some(true) => Some(c.push((n - 1) as usize)),
                Some(false) => Some(c),
                None => None,
            },
            None => None,
        }
    }
}

/// Whether one of the first `n` lots holds the commodity of `units` at cost.
pub open spec fn holds_any(units: &Amount, lots: Seq<Position>, n: nat) -> bool {
    exists|i: int| 0 <= i < n && i < lots.len() && holds_commodity(units, &lots[i])
}

fn number_agrees(spec: &CostSpec, cost: &Decimal, size: &Decimal) -> (r: Option<bool>)
    ensures
        r == matches_number(spec, cost@, size@),
{
    match &spec.number_total {
        None => match &spec.number_per {
            None => Some(true),
            Some(p) => Some(cost.num_eq(p)),
        },
        Some(t) => {
            let per: Decimal = match &spec.number_per {
                Some(p) => *p,
                None => Decimal::zero(),
            };
            let whole: Decimal = match cost.checked_mul(size) {
                Some(w) => w,
                None => { return None; },
            };
            let part: Decimal = match per.checked_mul(size) {
                Some(p) => p,
                None => { return None; },
            };
            match part.checked_add(t) {
                Some(sum) => Some(whole.num_eq(&sum)),
                None => None,
            }
        },
    }
}

fn origin_agrees(spec: &CostSpec, cost: &Cost) -> (r: bool)
    ensures
        r == matches_origin(spec, cost),
{
    let currency: bool = match &spec.currency {
        Some(c) => *c == cost.currency,
        None => true,
    };
    let date: bool = match &spec.date {
        Some(d) => *d == cost.date,
        None => true,
    };
    let label: bool = match &spec.label {
        Some(_) => same_optional_text(&spec.label, &cost.label),
        None => true,
    };
    currency && date && label
}

fn holds(units: &Amount, lot: &Position) -> (r: bool)
    ensures
        r == holds_commodity(units, lot),
{
    lot.cost.is_some() && lot.units.currency == units.currency && !lot.units.num.is_negative()
        && !lot.units.num.is_zero()
}

fn candidate(units: &Amount, spec: &CostSpec, lot: &Position) -> (r: Option<bool>)
    ensures
        r == is_candidate(units, spec, lot),
{
    if !holds(units, lot) {
        return Some(false);
    }
    match &lot.cost {
        Some(cost) => {
            if origin_agrees(spec, cost) {
                let size: Decimal = units.num.abs();
                number_agrees(spec, &cost.number, &size)
            } else {
                Some(false)
            }
        },
        None => Some(false),
    }
}

/// The candidates among `lots` for the reduction `units` under `spec`.
pub fn candidates(units: &Amount, spec: &CostSpec, lots: &Vec<Position>) -> (r: Option<
    Vec<usize>,
>)
    ensures
        match candidates_upto(units, spec, lots@, lots@.len()) {
            Some(c) => r is Some && r->0@ == c,
            None => r is None,
        },
{
    let mut out: Vec<usize> = Vec::new();
    let mut i: usize = 0;
    while i < lots.len()
        invariant
            i <= lots.len(),
            candidates_upto(units, spec, lots@, i as nat) == Some(out@),
        decreases lots.len() - i,
    {
        match candidate(units, spec, &lots[i]) {
            Some(true) => {
                out.push(i);
            },
            Some(false) => {},
            None => {
                proof {
                    lemma_candidates_fail(units, spec, lots@, (i + 1) as nat, lots@.len());
                }
                return None;
            },
        }
        i = i + 1;
    }
    Some(out)
}

/// Once the first `n` lots cannot be compared, no longer prefix can.
pub proof fn lemma_candidates_fail(
    units: &Amount,
    spec: &CostSpec,
    lots: Seq<Position>,
    n: nat,
    m: nat,
)
    requires
        n <= m,
        candidates_upto(units, spec, lots, n) is None,
    ensures
        candidates_upto(units, spec, lots, m) is None,
    decreases m,
{
    if n < m {
        lemma_candidates_fail(units, spec, lots, n, (m - 1) as nat);
    }
}

/// Candidates are lots of the inventory, in rising order, and a lot is a
/// candidate exactly when it matches.
pub proof fn lemma_candidates(units: &Amount, spec: &CostSpec, lots: Seq<Position>, n: nat)
    requires
        n <= lots.len() <= usize::MAX,
        candidates_upto(units, spec, lots, n) is Some,
    ensures
        ({
            let c = candidates_upto(units, spec, lots, n)->0;
            &&& forall|k: int| 0 <= k < c.len() ==> (#[trigger] c[k]) < n
            &&& forall|j: int, k: int| 0 <= j < k < c.len() ==> c[j] < c[k]
            &&& forall|k: int|
                0 <= k < c.len() ==> is_candidate(units, spec, &lots[(#[trigger] c[k]) as int])
                    == Some(true)
            &&& forall|i: int|
                0 <= i < n && is_candidate(units, spec, &lots[i]) == Some(true) ==> c.contains(
                    i as usize,
                )
        }),
    decreases n,
{
    if n > 0 {
        let p = candidates_upto(units, spec, lots, (n - 1) as nat)->0;
        lemma_candidates(units, spec, lots, (n - 1) as nat);
        let c = candidates_upto(units, spec, lots, n)->0;
        assert forall|i: int|
            0 <= i < n && is_candidate(units, spec, &lots[i]) == Some(true) implies c.contains(
            i as usize,
        ) by {
            if i < n - 1 {
                assert(p.contains(i as usize));
                let k = choose|k: int| 0 <= k < p.len() && p[k] == i as usize;
                assert(c[k] == i as usize);
            } else {
                assert(c[c.len() - 1] == i as usize);
            }
        }
    }
}

/// Units taken from one lot: the lot's place in the inventory and the
/// number of units, which is positive.
#[derive(Clone, Copy, Debug, PartialEq, Eq)]
pub struct LotReduction {
    pub lot: usize,
    pub units: Decimal,
}

/// Mathematical model of a [`LotReduction`].
pub struct Share {
    pub lot: usize,
    pub units: Dec,
}

impl View for LotReduction {
    type V = Share;

    open spec fn view(&self) -> Share {
        Share { lot: self.lot, units: self.units@ }
    }
}

/// The models of a sequence of reductions.
pub open spec fn shares(v: Seq<LotReduction>) -> Seq<Share> {
    Seq::new(v.len(), |i: int| v[i]@)
}

/// The outcome of booking a reduction.
#[derive(Clone, Debug, PartialEq, Eq)]
pub enum Booked {
    /// The units are taken from these lots, in this order.
    Lots(Vec<LotReduction>),
    /// The lots `lots` are merged into one lot of `held` units that cost
    /// `value` together, that is `cost` for one unit on average, in
    /// `currency`; `taken` units are taken from the merged lot.
    Merged {
        lots: Vec<usize>,
        held: Decimal,
        value: Decimal,
        cost: Decimal,
        currency: Currency,
        taken: Decimal,
    },
    /// No lot is touched: the reduction stands as it is written.
    Nominal,
}

/// Mathematical model of a [`Booked`].
pub enum BookedModel {
    Lots(Seq<Share>),
    Merged { lots: Seq<usize>, held: Dec, value: Dec, cost: Dec, currency: Seq<char>, taken: Dec },
    Nominal,
}

impl View for Booked {
    type V = BookedModel;

    open spec fn view(&self) -> BookedModel {
        match self {
            Booked::Lots(v) => BookedModel::Lots(shares(v@)),
            Booked::Merged { lots, held, value, cost, currency, taken } => BookedModel::Merged {
                lots: lots@,
                held: held@,
                value: value@,
                cost: cost@,
                currency: currency@,
                taken: taken@,
            },
            Booked::Nominal => BookedModel::Nominal,
        }
    }
}

/// Whether every pick is a lot of the inventory that is held at cost.
pub open spec fn picks_valid(lots: Seq<Position>, picks: Seq<usize>) -> bool {
    forall|k: int|
        0 <= k < picks.len() ==> (#[trigger] picks[k]) < lots.len() && lots[picks[k] as int].cost
            is Some
}

/// Whether every share names a lot of the inventory that is held at cost.
pub open spec fn shares_valid(lots: Seq<Position>, taken: Seq<Share>) -> bool {
    forall|k: int|
        0 <= k < taken.len() ==> (#[trigger] taken[k]).lot < lots.len() && lots[taken[k].lot as int].cost
            is Some
}

/// The units that the lot `i` holds.
pub open spec fn units_of(lots: Seq<Position>, i: usize) -> Dec {
    lots[i as int].units.num@
}

/// The cost per unit of the lot `i`.
pub open spec fn cost_of(lots: Seq<Position>, i: usize) -> Dec {
    lots[i as int].cost->0.number@
}

/// The day on which the lot `i` was acquired.
pub open spec fn date_of(lots: Seq<Position>, i: usize) -> Ymd {
    lots[i as int].cost->0.date@
}

/// The units that the first `n` picks hold together; `None` where the sum
/// is out of range.
pub open spec fn units_held(lots: Seq<Position>, picks: Seq<usize>, n: nat) -> Option<Dec>
    decreases n,
{
    if n == 0 {
        Some(Dec { mantissa: 0, scale: 0 })
    } else {
        match units_held(lots, picks, (n - 1) as nat) {
            Some(t) => t.checked_add(units_of(lots, picks[n - 1])),
            None => None,
        }
    }
}

/// What the first `n` picks cost together: the sum of units times cost per
/// unit; `None` where it is out of range.
pub open spec fn cost_held(lots: Seq<Position>, picks: Seq<usize>, n: nat) -> Option<Dec>
    decreases n,
{
    if n == 0 {
        Some(Dec { mantissa: 0, scale: 0 })
    } else {
        match cost_held(lots, picks, (n - 1) as nat) {
            Some(t) => match units_of(lots, picks[n - 1]).checked_mul(cost_of(lots, picks[n - 1])) {
                Some(v) => t.checked_add(v),
                None => None,
            },
            None => None,
        }
    }
}

/// Every pick, reduced by all the units that it holds.
pub open spec fn whole_lots(lots: Seq<Position>, picks: Seq<usize>) -> Seq<Share> {
    Seq::new(picks.len(), |k: int| Share { lot: picks[k], units: units_of(lots, picks[k]) })
}

/// Those of the first `n` picks that hold exactly `size` units.
pub open spec fn same_size(lots: Seq<Position>, picks: Seq<usize>, size: Dec, n: nat) -> Seq<usize>
    decreases n,
{
    if n == 0 {
        Seq::empty()
    } else {
        let before = same_size(lots, picks, size, (n - 1) as nat);
        if units_of(lots, picks[n - 1]).num_eq(size) {
            before.push(picks[n - 1])
        } else {
            before
        }
    }
}

/// `sorted` with the lot `x` put behind every lot that is not younger than
/// `x`.
pub open spec fn inserted(lots: Seq<Position>, sorted: Seq<usize>, x: usize) -> Seq<usize>
    decreases sorted.len(),
{
    if sorted.len() == 0 {
        seq![x]
    } else if date_of(lots, x).before(date_of(lots, sorted.last())) {
        inserted(lots, sorted.drop_last(), x).push(sorted.last())
    } else {
        sorted.push(x)
    }
}

/// The first `n` picks, oldest first; lots of the same day keep the order
/// of the inventory.
pub open spec fn oldest_first(lots: Seq<Position>, picks: Seq<usize>, n: nat) -> Seq<usize>
    decreases n,
{
    if n == 0 {
        Seq::empty()
    } else {
        inserted(lots, oldest_first(lots, picks, (n - 1) as nat), picks[n - 1])
    }
}

/// The sequence backwards.
pub open spec fn backwards(s: Seq<usize>) -> Seq<usize> {
    Seq::new(s.len(), |k: int| s[s.len() - 1 - k])
}

/// The picks in the order in which a method takes from them: oldest first,
/// or, newest first, the same order backwards.
pub open spec fn by_age(lots: Seq<Position>, picks: Seq<usize>, newest_first: bool) -> Seq<usize> {
    if newest_first {
        backwards(oldest_first(lots, picks, picks.len()))
    } else {
        oldest_first(lots, picks, picks.len())
    }
}

/// Takes `need` units from the lots of `order`, one after the other: from
/// each all that it holds, from the last one what is still needed. `None`
/// where a difference is out of range.
pub open spec fn take_in_order(lots: Seq<Position>, order: Seq<usize>, need: Dec) -> Option<
    Seq<Share>,
>
    decreases order.len(),
{
    if order.len() == 0 {
        Some(Seq::empty())
    } else {
        let held = units_of(lots, order[0]);
        if need.num_le(held) {
            Some(seq![Share { lot: order[0], units: need }])
        } else {
            match need.checked_sub(held) {
                Some(rest) => match take_in_order(lots, order.skip(1), rest) {
                    Some(t) => Some(seq![Share { lot: order[0], units: held }] + t),
                    None => None,
                },
                None => None,
            }
        }
    }
}

/// Whether all picks have their cost in the currency of the first.
pub open spec fn same_cost_currency(lots: Seq<Position>, picks: Seq<usize>, n: nat) -> bool {
    forall|k: int|
        0 <= k < n ==> lots[(#[trigger] picks[k]) as int].cost->0.currency@
            == lots[picks[0] as int].cost->0.currency@
}

/// The picks merged at their average cost, `size` units taken from them.
/// The average is what all picks cost together, divided by the `total` of
/// units that they hold. Lots whose costs are in different currencies
/// cannot be merged.
pub open spec fn averaged(lots: Seq<Position>, picks: Seq<usize>, total: Dec, size: Dec) -> Result<
    BookedModel,
    Error,
> {
    if !same_cost_currency(lots, picks, picks.len()) {
        Err(Error::AmbiguousBooking)
    } else {
        match cost_held(lots, picks, picks.len()) {
            Some(value) => match value.checked_div(total) {
                Some(average) => Ok(
                    BookedModel::Merged {
                        lots: picks,
                        held: total,
                        value,
                        cost: average,
                        currency: lots[picks[0] as int].cost->0.currency@,
                        taken: size,
                    },
                ),
                None => Err(Error::Overflow),
            },
            None => Err(Error::Overflow),
        }
    }
}

/// Whether `spec` gives a negative number.
pub open spec fn gives_negative(spec: &CostSpec) -> bool {
    ||| spec.number_per matches Some(p) && p@.mantissa < 0
    ||| spec.number_total matches Some(t) && t@.mantissa < 0
}

/// What several candidates `picks`, holding `total` units together, give
/// for a reduction of `size` units that is smaller than `total`, under the
/// booking method `method`.
pub open spec fn chosen(
    lots: Seq<Position>,
    picks: Seq<usize>,
    total: Dec,
    size: Dec,
    method: Booking,
) -> Result<BookedModel, Error> {
    match method {
        Booking::Strict => Err(Error::AmbiguousBooking),
        Booking::StrictWithSize => {
            let fitting = same_size(lots, picks, size, picks.len());
            if fitting.len() == 1 {
                Ok(BookedModel::Lots(seq![Share { lot: fitting[0], units: size }]))
            } else {
                Err(Error::AmbiguousBooking)
            }
        },
        Booking::NoBooking => Ok(BookedModel::Nominal),
        Booking::Average => averaged(lots, picks, total, size),
        Booking::Fifo => match take_in_order(lots, by_age(lots, picks, false), size) {
            Some(t) => Ok(BookedModel::Lots(t)),
            None => Err(Error::Overflow),
        },
        Booking::Lifo => match take_in_order(lots, by_age(lots, picks, true), size) {
            Some(t) => Ok(BookedModel::Lots(t)),
            None => Err(Error::Overflow),
        },
    }
}

/// The outcome of booking the reduction `units` under `spec` against the
/// inventory `lots` of an account whose booking method is `method`.
///
/// The size of the reduction is the magnitude of `units`. A specification
/// that asks for merging is booked by the method `Average`.
///
/// - A negative number in `spec`: `NegativeCostOrPrice`.
/// - No candidate: under `NoBooking` the reduction stands as written;
///   else `NegativeHeldAtCost` where the account holds the commodity at
///   cost (the reduction would open a negative lot), `NoMatchingLot` where
///   it holds none.
/// - One candidate: the units are taken from it; if it holds too few, the
///   reduction stands as written under `NoBooking` and is
///   `NegativeHeldAtCost` under any other method.
/// - Several candidates that hold exactly the size together: all of them
///   are taken whole. If they hold less, as for one candidate; if they hold
///   more, the method chooses ([`chosen`]).
/// - `Overflow` where a number needed on the way is out of range.
pub open spec fn resolution(
    units: &Amount,
    spec: &CostSpec,
    lots: Seq<Position>,
    method: Booking,
) -> Result<BookedModel, Error> {
    let size = units.num@.abs();
    let method = if spec.merge_cost {
        Booking::Average
    } else {
        method
    };
    if gives_negative(spec) {
        Err(Error::NegativeCostOrPrice)
    } else {
        match candidates_upto(units, spec, lots, lots.len()) {
            None => Err(Error::Overflow),
            Some(picks) => if picks.len() == 0 {
                if method == Booking::NoBooking {
                    Ok(BookedModel::Nominal)
                } else if holds_any(units, lots, lots.len()) {
                    Err(Error::NegativeHeldAtCost)
                } else {
                    Err(Error::NoMatchingLot)
                }
            } else if picks.len() == 1 {
                if size.num_le(units_of(lots, picks[0])) {
                    Ok(BookedModel::Lots(seq![Share { lot: picks[0], units: size }]))
                } else if method == Booking::NoBooking {
                    Ok(BookedModel::Nominal)
                } else {
                    Err(Error::NegativeHeldAtCost)
                }
            } else {
                match units_held(lots, picks, picks.len()) {
                    None => Err(Error::Overflow),
                    Some(total) => if size.num_eq(total) {
                        Ok(BookedModel::Lots(whole_lots(lots, picks)))
                    } else if method == Booking::NoBooking {
                        Ok(BookedModel::Nominal)
                    } else if total.num_lt(size) {
                        Err(Error::NegativeHeldAtCost)
                    } else {
                        chosen(lots, picks, total, size, method)
                    },
                }
            },
        }
    }
}

fn total_units(lots: &Vec<Position>, picks: &Vec<usize>) -> (r: Option<Decimal>)
    requires
        picks_valid(lots@, picks@),
    ensures
        r is Some <==> units_held(lots@, picks@, picks@.len()) is Some,
        r is Some ==> units_held(lots@, picks@, picks@.len()) == Some(r->0@),
{
    let mut total: Decimal = Decimal::zero();
    let mut k: usize = 0;
    while k < picks.len()
        invariant
            k <= picks.len(),
            picks_valid(lots@, picks@),
            units_held(lots@, picks@, k as nat) == Some(total@),
        decreases picks.len() - k,
    {
        match total.checked_add(&lots[picks[k]].units.num) {
            Some(t) => {
                total = t;
            },
            None => {
                proof {
                    lemma_units_held_fail(lots@, picks@, (k + 1) as nat, picks@.len());
                }
                return None;
            },
        }
        k = k + 1;
    }
    Some(total)
}

/// Once the first `n` picks hold too much to sum, so do more of them.
proof fn lemma_units_held_fail(lots: Seq<Position>, picks: Seq<usize>, n: nat, m: nat)
    requires
        n <= m,
        units_held(lots, picks, n) is None,
    ensures
        units_held(lots, picks, m) is None,
    decreases m,
{
    if n < m {
        lemma_units_held_fail(lots, picks, n, (m - 1) as nat);
    }
}

/// Once the first `n` picks cost too much to sum, so do more of them.
proof fn lemma_cost_held_fail(lots: Seq<Position>, picks: Seq<usize>, n: nat, m: nat)
    requires
        n <= m,
        cost_held(lots, picks, n) is None,
    ensures
        cost_held(lots, picks, m) is None,
    decreases m,
{
    if n < m {
        lemma_cost_held_fail(lots, picks, n, (m - 1) as nat);
    }
}

fn lot_cost(lot: &Position) -> (r: &Cost)
    requires
        lot.cost is Some,
    ensures
        *r == lot.cost->0,
{
    match &lot.cost {
        Some(c) => c,
        None => vstd::pervasive::unreached(),
    }
}

fn total_cost(lots: &Vec<Position>, picks: &Vec<usize>) -> (r: Option<Decimal>)
    requires
        picks_valid(lots@, picks@),
    ensures
        r is Some <==> cost_held(lots@, picks@, picks@.len()) is Some,
        r is Some ==> cost_held(lots@, picks@, picks@.len()) == Some(r->0@),
{
    let mut total: Decimal = Decimal::zero();
    let mut k: usize = 0;
    while k < picks.len()
        invariant
            k <= picks.len(),
            picks_valid(lots@, picks@),
            cost_held(lots@, picks@, k as nat) == Some(total@),
        decreases picks.len() - k,
    {
        let lot: &Position = &lots[picks[k]];
        let value: Option<Decimal> = lot.units.num.checked_mul(&lot_cost(lot).number);
        let next: Option<Decimal> = match value {
            Some(v) => total.checked_add(&v),
            None => None,
        };
        match next {
            Some(t) => {
                total = t;
            },
            None => {
                proof {
                    lemma_cost_held_fail(lots@, picks@, (k + 1) as nat, picks@.len());
                }
                return None;
            },
        }
        k = k + 1;
    }
    Some(total)
}

fn whole(lots: &Vec<Position>, picks: &Vec<usize>) -> (r: Vec<LotReduction>)
    requires
        picks_valid(lots@, picks@),
    ensures
        shares(r@) == whole_lots(lots@, picks@),
        shares_valid(lots@, shares(r@)),
{
    let mut out: Vec<LotReduction> = Vec::new();
    let mut k: usize = 0;
    while k < picks.len()
        invariant
            k <= picks.len(),
            picks_valid(lots@, picks@),
            out@.len() == k,
            forall|j: int|
                0 <= j < k ==> (#[trigger] out@[j])@ == (Share {
                    lot: picks@[j],
                    units: units_of(lots@, picks@[j]),
                }),
        decreases picks.len() - k,
    {
        out.push(LotReduction { lot: picks[k], units: lots[picks[k]].units.num });
        k = k + 1;
    }
    proof {
        assert(shares(out@) =~= whole_lots(lots@, picks@));
    }
    out
}

fn with_size(lots: &Vec<Position>, picks: &Vec<usize>, size: &Decimal) -> (r: Vec<usize>)
    requires
        picks_valid(lots@, picks@),
    ensures
        r@ == same_size(lots@, picks@, size@, picks@.len()),
        picks_valid(lots@, r@),
{
    let mut out: Vec<usize> = Vec::new();
    let mut k: usize = 0;
    while k < picks.len()
        invariant
            k <= picks.len(),
            picks_valid(lots@, picks@),
            picks_valid(lots@, out@),
            out@ == same_size(lots@, picks@, size@, k as nat),
        decreases picks.len() - k,
    {
        if lots[picks[k]].units.num.num_eq(size) {
            out.push(picks[k]);
        }
        k = k + 1;
    }
    out
}

fn insert_by_age(lots: &Vec<Position>, sorted: &mut Vec<usize>, x: usize)
    requires
        picks_valid(lots@, old(sorted)@),
        x < lots.len(),
        lots@[x as int].cost is Some,
    ensures
        final(sorted)@ == inserted(lots@, old(sorted)@, x),
        picks_valid(lots@, final(sorted)@),
    decreases old(sorted)@.len(),
{
    let n: usize = sorted.len();
    if n == 0 {
        sorted.push(x);
        proof {
            assert(sorted@ =~= seq![x]);
        }
        return ;
    }
    let last: usize = sorted[n - 1];
    assert(last == old(sorted)@[n - 1]);
    if lot_cost(&lots[x]).date.is_before(&lot_cost(&lots[last]).date) {
        sorted.pop();
        assert(sorted@ =~= old(sorted)@.drop_last());
        insert_by_age(lots, sorted, x);
        sorted.push(last);
    } else {
        sorted.push(x);
    }
}

fn order_by_age(lots: &Vec<Position>, picks: &Vec<usize>, newest_first: bool) -> (r: Vec<usize>)
    requires
        picks_valid(lots@, picks@),
    ensures
        r@ == by_age(lots@, picks@, newest_first),
        picks_valid(lots@, r@),
{
    let mut sorted: Vec<usize> = Vec::new();
    let mut k: usize = 0;
    while k < picks.len()
        invariant
            k <= picks.len(),
            picks_valid(lots@, picks@),
            picks_valid(lots@, sorted@),
            sorted@ == oldest_first(lots@, picks@, k as nat),
        decreases picks.len() - k,
    {
        insert_by_age(lots, &mut sorted, picks[k]);
        k = k + 1;
    }
    if !newest_first {
        return sorted;
    }
    let n: usize = sorted.len();
    let mut out: Vec<usize> = Vec::new();
    let mut j: usize = 0;
    while j < n
        invariant
            j <= n,
            n == sorted@.len(),
            out@.len() == j,
            forall|i: int| 0 <= i < j ==> out@[i] == sorted@[n - 1 - i],
        decreases n - j,
    {
        out.push(sorted[n - 1 - j]);
        j = j + 1;
    }
    proof {
        assert(out@ =~= backwards(sorted@));
    }
    out
}

fn take(lots: &Vec<Position>, order: &Vec<usize>, size: Decimal) -> (r: Option<Vec<LotReduction>>)
    requires
        picks_valid(lots@, order@),
    ensures
        match take_in_order(lots@, order@, size@) {
            Some(t) => r is Some && shares(r->0@) == t,
            None => r is None,
        },
        r is Some ==> shares_valid(lots@, shares(r->0@)),
{
    let mut out: Vec<LotReduction> = Vec::new();
    let mut need: Decimal = size;
    let mut k: usize = 0;
    proof {
        assert(order@.skip(0) =~= order@);
        let t = take_in_order(lots@, order@, size@);
        if t is Some {
            assert(shares(out@) + t->0 =~= t->0);
        }
    }
    while k < order.len()
        invariant
            k <= order.len(),
            picks_valid(lots@, order@),
            shares_valid(lots@, shares(out@)),
            take_in_order(lots@, order@, size@) == match take_in_order(
                lots@,
                order@.skip(k as int),
                need@,
            ) {
                Some(t) => Some(shares(out@) + t),
                None => None,
            },
        decreases order.len() - k,
    {
        let lot: usize = order[k];
        let held: Decimal = lots[lot].units.num;
        let ghost rest_order = order@.skip(k as int);
        proof {
            assert(rest_order[0] == lot);
            assert(rest_order.skip(1) =~= order@.skip(k + 1));
        }
        if need.num_le(&held) {
            proof {
                let one = LotReduction { lot, units: need };
                assert(shares(out@.push(one)) =~= shares(out@) + seq![Share { lot, units: need@ }]);
                assert(shares(out@.push(one)) =~= shares(out@).push(one@));
            }
            out.push(LotReduction { lot, units: need });
            return Some(out);
        }
        match need.checked_sub(&held) {
            Some(rest) => {
                proof {
                    let one = LotReduction { lot, units: held };
                    let tail = take_in_order(lots@, order@.skip(k + 1), rest@);
                    assert(shares(out@.push(one)) =~= shares(out@).push(one@));
                    if tail is Some {
                        assert(shares(out@.push(one)) + tail->0 =~= shares(out@) + (seq![
                            Share { lot, units: held@ },
                        ] + tail->0));
                    }
                }
                out.push(LotReduction { lot, units: held });
                need = rest;
            },
            None => {
                return None;
            },
        }
        k = k + 1;
    }
    proof {
        assert(shares(out@) + Seq::<Share>::empty() =~= shares(out@));
    }
    Some(out)
}

fn one_cost_currency(lots: &Vec<Position>, picks: &Vec<usize>) -> (r: bool)
    requires
        picks_valid(lots@, picks@),
    ensures
        r == same_cost_currency(lots@, picks@, picks@.len()),
{
    let mut k: usize = 0;
    while k < picks.len()
        invariant
            k <= picks.len(),
            picks_valid(lots@, picks@),
            same_cost_currency(lots@, picks@, k as nat),
        decreases picks.len() - k,
    {
        if lot_cost(&lots[picks[k]]).currency != lot_cost(&lots[picks[0]]).currency {
            return false;
        }
        k = k + 1;
    }
    true
}

fn average(lots: &Vec<Position>, picks: Vec<usize>, total: Decimal, size: Decimal) -> (r: Result<
    Booked,
    Error,
>)
    requires
        picks_valid(lots@, picks@),
        picks@.len() > 0,
    ensures
        match averaged(lots@, picks@, total@, size@) {
            Ok(b) => r is Ok && r->Ok_0@ == b,
            Err(e) => r == Err::<Booked, Error>(e),
        },
{
    if !one_cost_currency(lots, &picks) {
        return Err(Error::AmbiguousBooking);
    }
    let value: Decimal = match total_cost(lots, &picks) {
        Some(v) => v,
        None => { return Err(Error::Overflow); },
    };
    match value.checked_div(&total) {
        Some(cost) => {
            let currency: Currency = lot_cost(&lots[picks[0]]).currency.clone();
            Ok(Booked::Merged { lots: picks, held: total, value, cost, currency, taken: size })
        },
        None => Err(Error::Overflow),
    }
}

fn negative_given(spec: &CostSpec) -> (r: bool)
    ensures
        r == gives_negative(spec),
{
    let per: bool = match &spec.number_per {
        Some(p) => p.is_negative(),
        None => false,
    };
    let total: bool = match &spec.number_total {
        Some(t) => t.is_negative(),
        None => false,
    };
    per || total
}

fn holds_some(units: &Amount, lots: &Vec<Position>) -> (r: bool)
    ensures
        r == holds_any(units, lots@, lots@.len()),
{
    let mut i: usize = 0;
    while i < lots.len()
        invariant
            i <= lots.len(),
            !holds_any(units, lots@, i as nat),
        decreases lots.len() - i,
    {
        if holds(units, &lots[i]) {
            return true;
        }
        i = i + 1;
    }
    false
}

fn choose_lots(
    lots: &Vec<Position>,
    picks: Vec<usize>,
    total: Decimal,
    size: Decimal,
    method: Booking,
) -> (r: Result<Booked, Error>)
    requires
        picks_valid(lots@, picks@),
        picks@.len() > 0,
    ensures
        match chosen(lots@, picks@, total@, size@, method) {
            Ok(b) => r is Ok && r->Ok_0@ == b,
            Err(e) => r == Err::<Booked, Error>(e),
        },
        r matches Ok(Booked::Lots(v)) ==> shares_valid(lots@, shares(v@)),
{
    match method {
        Booking::Strict => Err(Error::AmbiguousBooking),
        Booking::StrictWithSize => {
            let fitting: Vec<usize> = with_size(lots, &picks, &size);
            if fitting.len() == 1 {
                let mut out: Vec<LotReduction> = Vec::new();
                out.push(LotReduction { lot: fitting[0], units: size });
                proof {
                    assert(shares(out@) =~= seq![Share { lot: fitting@[0], units: size@ }]);
                }
                Ok(Booked::Lots(out))
            } else {
                Err(Error::AmbiguousBooking)
            }
        },
        Booking::NoBooking => Ok(Booked::Nominal),
        Booking::Average => average(lots, picks, total, size),
        Booking::Fifo => {
            let order: Vec<usize> = order_by_age(lots, &picks, false);
            match take(lots, &order, size) {
                Some(t) => Ok(Booked::Lots(t)),
                None => Err(Error::Overflow),
            }
        },
        Booking::Lifo => {
            let order: Vec<usize> = order_by_age(lots, &picks, true);
            match take(lots, &order, size) {
                Some(t) => Ok(Booked::Lots(t)),
                None => Err(Error::Overflow),
            }
        },
    }
}

/// Books the reduction `units` under `spec` against the inventory `lots` of
/// an account whose booking method is `method`.
pub fn book_reduction(units: &Amount, spec: &CostSpec, lots: &Vec<Position>, method: Booking) -> (r:
    Result<Booked, Error>)
    ensures
        match resolution(units, spec, lots@, method) {
            Ok(b) => r is Ok && r->Ok_0@ == b,
            Err(e) => r == Err::<Booked, Error>(e),
        },
        r matches Ok(Booked::Lots(v)) ==> shares_valid(lots@, shares(v@)),
{
    let size: Decimal = units.num.abs();
    let method: Booking = if spec.merge_cost {
        Booking::Average
    } else {
        method
    };
    if negative_given(spec) {
        return Err(Error::NegativeCostOrPrice);
    }
    let picks: Vec<usize> = match candidates(units, spec, lots) {
        Some(p) => p,
        None => { return Err(Error::Overflow); },
    };
    let count: usize = lots.len();
    proof {
        lemma_candidates(units, spec, lots@, count as nat);
    }
    if picks.len() == 0 {
        if method == Booking::NoBooking {
            return Ok(Booked::Nominal);
        }
        if holds_some(units, lots) {
            return Err(Error::NegativeHeldAtCost);
        }
        return Err(Error::NoMatchingLot);
    }
    if picks.len() == 1 {
        if size.num_le(&lots[picks[0]].units.num) {
            let mut out: Vec<LotReduction> = Vec::new();
            out.push(LotReduction { lot: picks[0], units: size });
            proof {
                assert(shares(out@) =~= seq![Share { lot: picks@[0], units: size@ }]);
            }
            return Ok(Booked::Lots(out));
        }
        if method == Booking::NoBooking {
            return Ok(Booked::Nominal);
        }
        return Err(Error::NegativeHeldAtCost);
    }
    let total: Decimal = match total_units(lots, &picks) {
        Some(t) => t,
        None => { return Err(Error::Overflow); },
    };
    if size.num_eq(&total) {
        return Ok(Booked::Lots(whole(lots, &picks)));
    }
    if method == Booking::NoBooking {
        return Ok(Booked::Nominal);
    }
    if total.num_lt(&size) {
        return Err(Error::NegativeHeldAtCost);
    }
    choose_lots(lots, picks, total, size, method)
}

/// Whether the lots of `order` stand by the day on which they were
/// acquired, oldest first.
pub open spec fn by_date(lots: Seq<Position>, order: Seq<usize>) -> bool {
    forall|i: int, j: int|
        0 <= i < j < order.len() ==> !date_of(lots, order[j]).before(date_of(lots, order[i]))
}

/// Putting a lot into lots that stand by date leaves them standing by date,
/// and adds the one lot to those that were there.
pub proof fn lemma_inserted_by_date(lots: Seq<Position>, sorted: Seq<usize>, x: usize)
    requires
        by_date(lots, sorted),
    ensures
        by_date(lots, inserted(lots, sorted, x)),
        inserted(lots, sorted, x).len() == sorted.len() + 1,
        inserted(lots, sorted, x).to_multiset() == sorted.to_multiset().insert(x),
        forall|k: int|
            0 <= k < inserted(lots, sorted, x).len() ==> (#[trigger] inserted(lots, sorted, x)[k])
                == x || sorted.contains(inserted(lots, sorted, x)[k]),
    decreases sorted.len(),
{
    broadcast use vstd::seq_lib::to_multiset_build;

    let r = inserted(lots, sorted, x);
    if sorted.len() == 0 {
        assert(sorted =~= Seq::<usize>::empty());
        assert(r =~= Seq::<usize>::empty().push(x));
    } else if date_of(lots, x).before(date_of(lots, sorted.last())) {
        let head = sorted.drop_last();
        let last = sorted.last();
        assert forall|i: int, j: int| 0 <= i < j < head.len() implies !date_of(lots, head[j]).before(
            date_of(lots, head[i]),
        ) by {
            assert(head[i] == sorted[i] && head[j] == sorted[j]);
        }
        lemma_inserted_by_date(lots, head, x);
        let inner = inserted(lots, head, x);
        assert(sorted =~= head.push(last));
        assert(r.to_multiset() =~= sorted.to_multiset().insert(x));
        assert forall|k: int| 0 <= k < r.len() implies (#[trigger] r[k]) == x || sorted.contains(
            r[k],
        ) by {
            if k < inner.len() {
                assert(r[k] == inner[k]);
                if inner[k] != x {
                    let at = choose|at: int| 0 <= at < head.len() && head[at] == inner[k];
                    assert(sorted[at] == r[k]);
                }
            } else {
                assert(sorted[sorted.len() - 1] == r[k]);
            }
        }
        assert forall|i: int, j: int| 0 <= i < j < r.len() implies !date_of(lots, r[j]).before(
            date_of(lots, r[i]),
        ) by {
            assert(r[i] == inner[i]);
            if j < inner.len() {
                assert(r[j] == inner[j]);
                assert(!date_of(lots, inner[j]).before(date_of(lots, inner[i])));
            } else {
                assert(r[j] == last);
                if inner[i] != x {
                    assert(head.contains(inner[i]));
                    let at = choose|at: int| 0 <= at < head.len() && head[at] == inner[i];
                    assert(sorted[at] == inner[i]);
                    assert(!date_of(lots, sorted[sorted.len() - 1]).before(
                        date_of(lots, sorted[at]),
                    ));
                }
            }
        }
    } else {
        assert forall|i: int, j: int| 0 <= i < j < r.len() implies !date_of(lots, r[j]).before(
            date_of(lots, r[i]),
        ) by {
            assert(r[i] == sorted[i]);
            if j < sorted.len() {
                assert(r[j] == sorted[j]);
                assert(!date_of(lots, sorted[j]).before(date_of(lots, sorted[i])));
            } else {
                assert(r[j] == x);
                let last = sorted[sorted.len() - 1];
                assert(!date_of(lots, x).before(date_of(lots, last)));
                if i < sorted.len() - 1 {
                    assert(!date_of(lots, last).before(date_of(lots, sorted[i])));
                }
            }
        }
        assert forall|k: int| 0 <= k < r.len() implies (#[trigger] r[k]) == x || sorted.contains(
            r[k],
        ) by {
            if k < sorted.len() {
                assert(r[k] == sorted[k]);
            }
        }
    }
}

/// The order `oldest_first` holds the picks that it was given, each as
/// often as it was given, by the day on which they were acquired.
pub proof fn lemma_oldest_first(lots: Seq<Position>, picks: Seq<usize>, n: nat)
    requires
        n <= picks.len(),
    ensures
        by_date(lots, oldest_first(lots, picks, n)),
        oldest_first(lots, picks, n).len() == n,
        oldest_first(lots, picks, n).to_multiset() == picks.subrange(0, n as int).to_multiset(),
    decreases n,
{
    broadcast use vstd::seq_lib::to_multiset_build;

    if n > 0 {
        lemma_oldest_first(lots, picks, (n - 1) as nat);
        lemma_inserted_by_date(lots, oldest_first(lots, picks, (n - 1) as nat), picks[n - 1]);
        assert(picks.subrange(0, n as int) =~= picks.subrange(0, n - 1).push(picks[n - 1]));
    } else {
        assert(picks.subrange(0, 0) =~= Seq::<usize>::empty());
        assert(oldest_first(lots, picks, 0) =~= Seq::<usize>::empty());
    }
}

/// The units of the shares together, as a number of units of `10^-scale`.
pub open spec fn shares_sum(taken: Seq<Share>, scale: nat) -> int
    decreases taken.len(),
{
    if taken.len() == 0 {
        0
    } else {
        taken[0].units.scaled_to(scale) + shares_sum(taken.drop_first(), scale)
    }
}

/// Taking in order takes exactly the units that are needed, unless the lots
/// hold less: then it takes every lot whole.
pub proof fn lemma_take_covers(lots: Seq<Position>, order: Seq<usize>, need: Dec, scale: nat)
    requires
        take_in_order(lots, order, need) is Some,
        need.scale <= scale,
        forall|k: int| 0 <= k < order.len() ==> units_of(lots, order[k]).scale <= scale,
    ensures
        ({
            let taken = take_in_order(lots, order, need)->0;
            ||| shares_sum(taken, scale) == need.scaled_to(scale)
            ||| taken == whole_lots(lots, order)
        }),
    decreases order.len(),
{
    let taken = take_in_order(lots, order, need)->0;
    if order.len() == 0 {
        assert(taken =~= whole_lots(lots, order));
    } else {
        let held = units_of(lots, order[0]);
        if need.num_le(held) {
            assert(taken.drop_first() =~= Seq::<Share>::empty());
            assert(shares_sum(taken.drop_first(), scale) == 0);
        } else {
            let rest = need.checked_sub(held)->0;
            let tail = take_in_order(lots, order.skip(1), rest)->0;
            crate::decimal::lemma_add_exact(need, held.neg(), scale);
            assert(held.neg().scaled_to(scale) == -held.scaled_to(scale)) by (nonlinear_arith)
                requires
                    held.neg().mantissa == -held.mantissa,
                    held.neg().scaled_to(scale) == held.neg().mantissa * crate::decimal::pow10(
                        (scale - held.scale) as nat,
                    ),
                    held.scaled_to(scale) == held.mantissa * crate::decimal::pow10(
                        (scale - held.scale) as nat,
                    ),
            ;
            assert forall|k: int| 0 <= k < order.skip(1).len() implies units_of(
                lots,
                order.skip(1)[k],
            ).scale <= scale by {
                assert(order.skip(1)[k] == order[k + 1]);
            }
            lemma_take_covers(lots, order.skip(1), rest, scale);
            assert(taken.drop_first() =~= tail);
            if tail == whole_lots(lots, order.skip(1)) && shares_sum(tail, scale)
                != rest.scaled_to(scale) {
                assert(taken =~= whole_lots(lots, order)) by {
                    assert forall|k: int| 0 <= k < taken.len() implies taken[k] == whole_lots(
                        lots,
                        order,
                    )[k] by {
                        if k > 0 {
                            assert(taken[k] == tail[k - 1]);
                            assert(order.skip(1)[k - 1] == order[k]);
                        }
                    }
                }
            }
        }
    }
}

/// The shares of an outcome that takes units from lots; none for any other
/// outcome.
pub open spec fn taken_of(booked: BookedModel) -> Seq<Share> {
    match booked {
        BookedModel::Lots(taken) => taken,
        _ => Seq::empty(),
    }
}

/// Taking in order never takes more from a lot than the lot holds.
pub proof fn lemma_take_within_lots(lots: Seq<Position>, order: Seq<usize>, need: Dec)
    requires
        take_in_order(lots, order, need) is Some,
    ensures
        forall|k: int|
            0 <= k < take_in_order(lots, order, need)->0.len() ==> (#[trigger] take_in_order(
                lots,
                order,
                need,
            )->0[k]).units.num_le(units_of(lots, take_in_order(lots, order, need)->0[k].lot)),
    decreases order.len(),
{
    let t = take_in_order(lots, order, need)->0;
    if order.len() > 0 {
        let held = units_of(lots, order[0]);
        if !need.num_le(held) {
            let rest = need.checked_sub(held)->0;
            let tail = take_in_order(lots, order.skip(1), rest)->0;
            lemma_take_within_lots(lots, order.skip(1), rest);
            assert forall|k: int| 0 <= k < t.len() implies (#[trigger] t[k]).units.num_le(
                units_of(lots, t[k].lot),
            ) by {
                if k > 0 {
                    assert(t[k] == tail[k - 1]);
                }
            }
        }
    }
}

/// Every lot of `same_size` holds exactly `size` units.
pub proof fn lemma_same_size_fits(lots: Seq<Position>, picks: Seq<usize>, size: Dec, n: nat)
    ensures
        forall|k: int|
            0 <= k < same_size(lots, picks, size, n).len() ==> units_of(
                lots,
                #[trigger] same_size(lots, picks, size, n)[k],
            ).num_eq(size),
    decreases n,
{
    if n > 0 {
        lemma_same_size_fits(lots, picks, size, (n - 1) as nat);
        let before = same_size(lots, picks, size, (n - 1) as nat);
        let now = same_size(lots, picks, size, n);
        assert forall|k: int| 0 <= k < now.len() implies units_of(lots, #[trigger] now[k]).num_eq(
            size,
        ) by {
            if k < before.len() {
                assert(now[k] == before[k]);
            }
        }
    }
}

/// A reduction never takes more units from a lot than the lot holds: no
/// lot held at cost is left with a negative number of units.
pub proof fn lemma_never_more_than_held(
    units: &Amount,
    spec: &CostSpec,
    lots: Seq<Position>,
    method: Booking,
)
    requires
        resolution(units, spec, lots, method) is Ok,
    ensures
        forall|k: int|
            0 <= k < taken_of(resolution(units, spec, lots, method)->Ok_0).len() ==> (
            #[trigger] taken_of(resolution(units, spec, lots, method)->Ok_0)[k]).units.num_le(
                units_of(lots, taken_of(resolution(units, spec, lots, method)->Ok_0)[k].lot),
            ),
{
    let size = units.num@.abs();
    let by = if spec.merge_cost {
        Booking::Average
    } else {
        method
    };
    let picks = candidates_upto(units, spec, lots, lots.len())->0;
    let taken = taken_of(resolution(units, spec, lots, method)->Ok_0);
    if picks.len() >= 2 {
        let total = units_held(lots, picks, picks.len())->0;
        if !size.num_eq(total) {
            lemma_same_size_fits(lots, picks, size, picks.len());
            if by == Booking::Fifo {
                lemma_take_within_lots(lots, by_age(lots, picks, false), size);
            }
            if by == Booking::Lifo {
                lemma_take_within_lots(lots, by_age(lots, picks, true), size);
            }
        }
    }
}

} // verus!
