//! The ledger: all directives, and their order.
//!
//! A ledger is built by accumulating directives in any order. Sorting it
//! orders them by day and, within a day, so that accounts are opened and
//! balances asserted before the transactions of the day apply.

use crate::directives::Directive;
use vstd::prelude::*;

verus! {

/// All directives of a ledger.
#[derive(Clone, Debug, PartialEq, Eq)]
pub struct Ledger {
    pub directives: Vec<Directive>,
}

/// Whether the directives stand in the order of their ranks.
pub open spec fn ordered(v: Seq<Directive>) -> bool {
    forall|i: int, j: int| 0 <= i < j < v.len() ==> v[i].rank() <= v[j].rank()
}

/// The number of directives at the head of `s` that rank below `x`.
pub open spec fn lower_count(s: Seq<Directive>, x: Directive) -> nat
    decreases s.len(),
{
    if s.len() == 0 {
        0
    } else if s[0].rank() < x.rank() {
        1 + lower_count(s.drop_first(), x)
    } else {
        0
    }
}

/// `s` with `x` put before the first directive that does not rank below it.
pub open spec fn inserted(s: Seq<Directive>, x: Directive) -> Seq<Directive> {
    s.insert(lower_count(s, x) as int, x)
}

/// The directives in the order of their ranks; directives of the same rank
/// keep the order in which they stand in `v`.
pub open spec fn sorted(v: Seq<Directive>) -> Seq<Directive>
    decreases v.len(),
{
    if v.len() == 0 {
        Seq::empty()
    } else {
        inserted(sorted(v.drop_first()), v[0])
    }
}

/// The places of the first `n` directives that carry no date.
pub open spec fn undated_upto(v: Seq<Directive>, n: nat) -> Seq<usize>
    decreases n,
{
    if n == 0 {
        Seq::empty()
    } else {
        let before = undated_upto(v, (n - 1) as nat);
        if v[n - 1].date_of() is None {
            before.push((n - 1) as usize)
        } else {
            before
        }
    }
}

/// `lower_count` is the place before which all rank below `x` and at which
/// one does not, or the sequence ends.
pub proof fn lemma_lower_count(s: Seq<Directive>, x: Directive, p: int)
    requires
        0 <= p <= s.len(),
        forall|i: int| 0 <= i < p ==> s[i].rank() < x.rank(),
        p == s.len() || s[p].rank() >= x.rank(),
    ensures
        lower_count(s, x) == p,
    decreases s.len(),
{
    if s.len() > 0 && p > 0 {
        let t = s.drop_first();
        assert forall|i: int| 0 <= i < p - 1 implies t[i].rank() < x.rank() by {
            assert(t[i] == s[i + 1]);
        }
        lemma_lower_count(t, x, p - 1);
    }
}

/// `lower_count` is within the sequence, all before it rank below `x`, and
/// the directive at it does not.
pub proof fn lemma_lower_count_bounds(s: Seq<Directive>, x: Directive)
    ensures
        lower_count(s, x) <= s.len(),
        forall|i: int| 0 <= i < lower_count(s, x) ==> s[i].rank() < x.rank(),
        lower_count(s, x) < s.len() ==> s[lower_count(s, x) as int].rank() >= x.rank(),
    decreases s.len(),
{
    if s.len() > 0 && s[0].rank() < x.rank() {
        let t = s.drop_first();
        lemma_lower_count_bounds(t, x);
        assert forall|i: int| 0 <= i < lower_count(s, x) implies s[i].rank() < x.rank() by {
            if i > 0 {
                assert(s[i] == t[i - 1]);
            }
        }
        if lower_count(s, x) < s.len() {
            assert(s[lower_count(s, x) as int] == t[lower_count(t, x) as int]);
        }
    }
}

/// Inserting into directives that are in order leaves them in order, and
/// adds the one directive to those that were there.
pub proof fn lemma_inserted(s: Seq<Directive>, x: Directive)
    ensures
        inserted(s, x).len() == s.len() + 1,
        inserted(s, x).to_multiset() == s.to_multiset().insert(x),
        ordered(s) ==> ordered(inserted(s, x)),
{
    lemma_lower_count_bounds(s, x);
    let p = lower_count(s, x) as int;
    let r = inserted(s, x);
    vstd::seq_lib::to_multiset_insert(s, p, x);
    if ordered(s) {
        assert forall|i: int, j: int| 0 <= i < j < r.len() implies r[i].rank() <= r[j].rank() by {
            if i < p {
                assert(r[i] == s[i]);
            } else if i > p {
                assert(r[i] == s[i - 1]);
            }
            if j < p {
                assert(r[j] == s[j]);
            } else if j > p {
                assert(r[j] == s[j - 1]);
            }
        }
    }
}

/// Sorting puts the directives in order and neither adds nor loses one.
pub proof fn lemma_sorted(v: Seq<Directive>)
    ensures
        ordered(sorted(v)),
        sorted(v).len() == v.len(),
        sorted(v).to_multiset() == v.to_multiset(),
    decreases v.len(),
{
    if v.len() > 0 {
        let t = v.drop_first();
        lemma_sorted(t);
        lemma_inserted(sorted(t), v[0]);
        assert(v =~= t.insert(0, v[0]));
        vstd::seq_lib::to_multiset_insert(t, 0, v[0]);
    } else {
        assert(v =~= Seq::<Directive>::empty());
    }
}

/// Directives that are in order stay as they are when they are sorted.
pub proof fn lemma_sorted_is_fixed(v: Seq<Directive>)
    requires
        ordered(v),
    ensures
        sorted(v) == v,
    decreases v.len(),
{
    if v.len() > 0 {
        let t = v.drop_first();
        assert forall|i: int, j: int| 0 <= i < j < t.len() implies t[i].rank() <= t[j].rank() by {
            assert(t[i] == v[i + 1] && t[j] == v[j + 1]);
        }
        lemma_sorted_is_fixed(t);
        if t.len() > 0 {
            assert(t[0] == v[1]);
        }
        lemma_lower_count(t, v[0], 0);
        assert(t.insert(0, v[0]) =~= v);
    } else {
        assert(v =~= Seq::<Directive>::empty());
    }
}

/// In a ledger that is in order, no transaction stands before a balance
/// assertion of the same day: balances are checked against what the
/// accounts hold when the day begins.
pub proof fn lemma_balance_before_transaction(v: Seq<Directive>, i: int, j: int)
    requires
        ordered(v),
        0 <= i < j < v.len(),
        v[i].date_of() is Some,
        v[i].date_of() == v[j].date_of(),
    ensures
        !(v[i] is Transaction && v[j] is Balance),
{
}

/// Whatever the order in which the directives are given, after sorting
/// every balance assertion of a day stands before every transaction of
/// that day.
pub proof fn lemma_sorted_balance_first(v: Seq<Directive>, i: int, j: int)
    requires
        0 <= i < sorted(v).len(),
        0 <= j < sorted(v).len(),
        sorted(v)[i] is Balance,
        sorted(v)[j] is Transaction,
        sorted(v)[i].date_of() == sorted(v)[j].date_of(),
    ensures
        i < j,
{
    lemma_sorted(v);
    if j < i {
        lemma_balance_before_transaction(sorted(v), j, i);
    }
}

/// In a ledger that is in order, directives without a date come first and
/// the dated ones follow by day.
pub proof fn lemma_ordered_by_date(v: Seq<Directive>, i: int, j: int)
    requires
        ordered(v),
        0 <= i < j < v.len(),
        v[j].date_of() matches Some(d) ==> d@.valid(),
        v[i].date_of() matches Some(d) ==> d@.valid(),
    ensures
        v[j].date_of() is None ==> v[i].date_of() is None,
        v[i].date_of() is Some && v[j].date_of() is Some ==> !v[j].date_of()->0@.before(
            v[i].date_of()->0@,
        ),
{
    if v[i].date_of() is Some && v[j].date_of() is Some {
        crate::date::lemma_ordinal_order(v[i].date_of()->0@, v[j].date_of()->0@);
    }
}

impl Ledger {
    /// Whether the directives stand in the order of their ranks.
    pub open spec fn is_sorted(&self) -> bool {
        ordered(self.directives@)
    }

    /// A ledger without directives.
    pub fn new() -> (r: Ledger)
        ensures
            r.directives@.len() == 0,
    {
        Ledger { directives: Vec::new() }
    }

    /// A ledger of the directives `directives`, in the order given.
    pub fn from_directives(directives: Vec<Directive>) -> (r: Ledger)
        ensures
            r.directives == directives,
    {
        Ledger { directives }
    }

    /// Adds `directive` behind the directives of the ledger.
    pub fn push(&mut self, directive: Directive)
        ensures
            final(self).directives@ == old(self).directives@.push(directive),
    {
        self.directives.push(directive);
    }

    /// The ledger with its directives in order: by day and, within a day,
    /// by priority; directives without a date first. Directives of the same
    /// rank keep the order in which they were given.
    pub fn sort(self) -> (r: Ledger)
        ensures
            r.directives@ == sorted(self.directives@),
            r.is_sorted(),
            r.directives@.to_multiset() == self.directives@.to_multiset(),
    {
        let ghost given = self.directives@;
        let mut rest: Vec<Directive> = self.directives;
        let mut out: Vec<Directive> = Vec::new();
        proof {
            assert(given.subrange(given.len() as int, given.len() as int) =~= Seq::<
                Directive,
            >::empty());
            assert(given.subrange(0, given.len() as int) =~= given);
        }
        while rest.len() > 0
            invariant
                rest@.len() <= given.len(),
                rest@ == given.subrange(0, rest@.len() as int),
                out@ == sorted(given.subrange(rest@.len() as int, given.len() as int)),
            decreases rest.len(),
        {
            let ghost k = rest@.len() as int;
            let x: Directive = match rest.pop() {
                Some(x) => x,
                None => vstd::pervasive::unreached(),
            };
            let key: i64 = x.sort_key();
            let mut p: usize = 0;
            while p < out.len() && out[p].sort_key() < key
                invariant
                    p <= out.len(),
                    key == x.rank(),
                    forall|i: int| 0 <= i < p ==> out@[i].rank() < x.rank(),
                decreases out.len() - p,
            {
                p = p + 1;
            }
            proof {
                lemma_lower_count(out@, x, p as int);
                let tail = given.subrange(k - 1, given.len() as int);
                assert(tail.drop_first() =~= given.subrange(k, given.len() as int));
                assert(tail[0] == x);
                assert(rest@ =~= given.subrange(0, k - 1));
            }
            out.insert(p, x);
        }
        proof {
            assert(given.subrange(0, given.len() as int) =~= given);
            lemma_sorted(given);
        }
        Ledger { directives: out }
    }

    /// Whether the directives stand in the order of their ranks.
    pub fn check_sorted(&self) -> (r: bool)
        ensures
            r == self.is_sorted(),
    {
        let n: usize = self.directives.len();
        if n == 0 {
            return true;
        }
        let mut i: usize = 1;
        while i < n
            invariant
                1 <= i <= n,
                n == self.directives@.len(),
                forall|a: int, b: int|
                    0 <= a < b < i ==> self.directives@[a].rank() <= self.directives@[b].rank(),
            decreases n - i,
        {
            if self.directives[i - 1].sort_key() > self.directives[i].sort_key() {
                return false;
            }
            proof {
                assert forall|a: int, b: int| 0 <= a < b < i + 1 implies self.directives@[a].rank()
                    <= self.directives@[b].rank() by {
                    if b == i && a < i - 1 {
                        assert(self.directives@[a].rank() <= self.directives@[i - 1].rank());
                    }
                }
            }
            i = i + 1;
        }
        true
    }

    /// The places of the directives that carry no date: `include`, `option`
    /// and `plugin` directives, which take no part in the order of days.
    pub fn undated(&self) -> (r: Vec<usize>)
        ensures
            r@ == undated_upto(self.directives@, self.directives@.len()),
    {
        let mut out: Vec<usize> = Vec::new();
        let mut i: usize = 0;
        while i < self.directives.len()
            invariant
                i <= self.directives.len(),
                out@ == undated_upto(self.directives@, i as nat),
            decreases self.directives.len() - i,
        {
            if self.directives[i].date().is_none() {
                out.push(i);
            }
            i = i + 1;
        }
        out
    }
}

impl Default for Ledger {
    fn default() -> (r: Ledger)
        ensures
            r.directives@.len() == 0,
    {
        Ledger::new()
    }
}

} // verus!
