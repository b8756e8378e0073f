//! Text helpers: splitting and joining on a separator, and the few
//! operations on `str` and `String` that the standard library provides.

use vstd::prelude::*;
use vstd::string::StringExecFns;
use vstd::string::StrSliceExecFns;

verus! {

/// `String::push` appends one character.
pub assume_specification[ String::push ](s: &mut String, c: char)
    ensures
        final(s)@ == old(s)@.push(c),
;

/// Equality of two string slices, by `str::eq`.
///
/// Trusted: the standard comparison holds exactly when both slices are the
/// same sequence of characters.
#[verifier::external_body]
pub(crate) fn str_eq(a: &str, b: &str) -> (r: bool)
    ensures
        r == (a@ == b@),
{
    a == b
}

/// The texts that a sequence of strings holds.
pub open spec fn texts(v: Seq<String>) -> Seq<Seq<char>> {
    Seq::new(v.len(), |i: int| v[i]@)
}

/// Position of the first `c` in `s`, or the length of `s` where there is none.
pub open spec fn index_of(s: Seq<char>, c: char) -> int
    decreases s.len(),
{
    if s.len() == 0 {
        0
    } else if s[0] == c {
        0
    } else {
        1 + index_of(s.drop_first(), c)
    }
}

/// The pieces of `s` between occurrences of `sep`. A text without `sep` is
/// one piece; `n` occurrences give `n + 1` pieces, some of them possibly
/// empty.
pub open spec fn split_on(s: Seq<char>, sep: char) -> Seq<Seq<char>>
    decreases s.len(),
{
    let i = index_of(s, sep);
    if 0 <= i < s.len() {
        seq![s.subrange(0, i)] + split_on(s.subrange(i + 1, s.len() as int), sep)
    } else {
        seq![s]
    }
}

/// The pieces with `sep` between each two neighbours.
pub open spec fn join(parts: Seq<Seq<char>>, sep: Seq<char>) -> Seq<char>
    decreases parts.len(),
{
    if parts.len() == 0 {
        Seq::empty()
    } else if parts.len() == 1 {
        parts[0]
    } else {
        join(parts.drop_last(), sep) + sep + parts.last()
    }
}

/// `index_of` is the position `k` before which no `c` stands and at which
/// one does, or the text ends.
pub proof fn lemma_index_of(s: Seq<char>, c: char, k: int)
    requires
        0 <= k <= s.len(),
        forall|j: int| 0 <= j < k ==> s[j] != c,
        k == s.len() || s[k] == c,
    ensures
        index_of(s, c) == k,
    decreases s.len(),
{
    if s.len() != 0 && k > 0 {
        let t = s.drop_first();
        assert forall|j: int| 0 <= j < k - 1 implies t[j] != c by {
            assert(t[j] == s[j + 1]);
        }
        lemma_index_of(t, c, k - 1);
    }
}

/// Joining a first piece with others puts the separator behind the first.
pub proof fn lemma_join_first(first: Seq<char>, rest: Seq<Seq<char>>, sep: Seq<char>)
    requires
        rest.len() > 0,
    ensures
        join(seq![first] + rest, sep) == first + sep + join(rest, sep),
    decreases rest.len(),
{
    let all = seq![first] + rest;
    assert(all.len() == rest.len() + 1);
    assert(all.last() == rest.last());
    assert(all.drop_last() =~= seq![first] + rest.drop_last());
    assert(join(all, sep) == join(all.drop_last(), sep) + sep + all.last());
    if rest.len() == 1 {
        assert(all.drop_last() =~= seq![first]);
        assert(seq![first].len() == 1);
        assert(join(seq![first], sep) == seq![first][0]);
        assert(rest[0] == rest.last());
        assert(join(rest, sep) == rest[0]);
    } else {
        lemma_join_first(first, rest.drop_last(), sep);
        assert(join(rest, sep) == join(rest.drop_last(), sep) + sep + rest.last());
        assert(first + sep + join(rest.drop_last(), sep) + sep + rest.last() =~= first + sep + (
        join(rest.drop_last(), sep) + sep + rest.last()));
    }
}

/// No piece of a split holds the separator.
pub proof fn lemma_index_of_range(s: Seq<char>, c: char)
    ensures
        0 <= index_of(s, c) <= s.len(),
        forall|j: int| 0 <= j < index_of(s, c) ==> s[j] != c,
        index_of(s, c) < s.len() ==> s[index_of(s, c)] == c,
    decreases s.len(),
{
    if s.len() > 0 && s[0] != c {
        let t = s.drop_first();
        lemma_index_of_range(t, c);
        assert forall|j: int| 0 <= j < index_of(s, c) implies s[j] != c by {
            if j > 0 {
                assert(s[j] == t[j - 1]);
            }
        }
        if index_of(s, c) < s.len() {
            assert(s[index_of(s, c)] == t[index_of(t, c)]);
        }
    }
}

/// Splitting a text and joining the pieces with the separator gives the
/// text back.
pub proof fn lemma_join_split(s: Seq<char>, sep: char)
    ensures
        split_on(s, sep).len() >= 1,
        join(split_on(s, sep), seq![sep]) == s,
    decreases s.len(),
{
    lemma_index_of_range(s, sep);
    let i = index_of(s, sep);
    if 0 <= i < s.len() {
        let head = s.subrange(0, i);
        let tail = s.subrange(i + 1, s.len() as int);
        lemma_join_split(tail, sep);
        lemma_join_first(head, split_on(tail, sep), seq![sep]);
        assert(head + seq![sep] + tail =~= s);
    }
}

/// Splits `s` at every occurrence of `sep`.
pub fn split(s: &str, sep: char) -> (r: Vec<String>)
    ensures
        texts(r@) == split_on(s@, sep),
{
    let n: usize = s.unicode_len();
    let mut out: Vec<String> = Vec::new();
    let mut start: usize = 0;
    let mut i: usize = 0;
    proof {
        assert(s@.subrange(0, n as int) =~= s@);
        assert(texts(out@) + split_on(s@, sep) =~= split_on(s@, sep));
    }
    while i < n
        invariant
            n == s@.len(),
            start <= i <= n,
            forall|j: int| start <= j < i ==> s@[j] != sep,
            split_on(s@, sep) == texts(out@) + split_on(s@.subrange(start as int, n as int), sep),
        decreases n - i,
    {
        let c: char = s.get_char(i);
        if c == sep {
            let piece: String = String::from_str(s.substring_char(start, i));
            proof {
                let t = s@.subrange(start as int, n as int);
                let k = i - start;
                assert forall|j: int| 0 <= j < k implies t[j] != sep by {
                    assert(t[j] == s@[start + j]);
                }
                lemma_index_of(t, sep, k);
                assert(t.subrange(0, k) =~= s@.subrange(start as int, i as int));
                assert(t.subrange(k + 1, t.len() as int) =~= s@.subrange(i + 1, n as int));
                assert(texts(out@.push(piece)) =~= texts(out@) + seq![piece@]);
                assert(texts(out@) + (seq![piece@] + split_on(s@.subrange(i + 1, n as int), sep))
                    =~= texts(out@.push(piece)) + split_on(s@.subrange(i + 1, n as int), sep));
            }
            out.push(piece);
            start = i + 1;
        }
        i = i + 1;
    }
    let piece: String = String::from_str(s.substring_char(start, n));
    proof {
        let t = s@.subrange(start as int, n as int);
        assert forall|j: int| 0 <= j < t.len() implies t[j] != sep by {
            assert(t[j] == s@[start + j]);
        }
        lemma_index_of(t, sep, t.len() as int);
        assert(texts(out@.push(piece)) =~= texts(out@) + seq![piece@]);
    }
    out.push(piece);
    out
}

/// Whether the first `n` strings of `a` and of `b` hold the same texts.
pub fn same_prefix(a: &Vec<String>, b: &Vec<String>, n: usize) -> (r: bool)
    requires
        n <= a.len(),
        n <= b.len(),
    ensures
        r == (texts(a@).subrange(0, n as int) == texts(b@).subrange(0, n as int)),
{
    let mut i: usize = 0;
    while i < n
        invariant
            i <= n <= a.len(),
            n <= b.len(),
            texts(a@).subrange(0, i as int) == texts(b@).subrange(0, i as int),
        decreases n - i,
    {
        if a[i] != b[i] {
            proof {
                let x = texts(a@).subrange(0, n as int);
                let y = texts(b@).subrange(0, n as int);
                assert(x[i as int] == a@[i as int]@);
                assert(y[i as int] == b@[i as int]@);
            }
            return false;
        }
        proof {
            let x = texts(a@).subrange(0, i + 1);
            let y = texts(b@).subrange(0, i + 1);
            assert(x.drop_last() =~= texts(a@).subrange(0, i as int));
            assert(y.drop_last() =~= texts(b@).subrange(0, i as int));
            assert(x.last() == y.last());
            assert(x =~= x.drop_last().push(x.last()));
            assert(y =~= y.drop_last().push(y.last()));
        }
        i = i + 1;
    }
    true
}

/// Whether `a` and `b` hold the same texts in the same order.
pub fn same_texts(a: &Vec<String>, b: &Vec<String>) -> (r: bool)
    ensures
        r == (texts(a@) == texts(b@)),
{
    if a.len() != b.len() {
        return false;
    }
    proof {
        assert(texts(a@).subrange(0, a.len() as int) =~= texts(a@));
        assert(texts(b@).subrange(0, b.len() as int) =~= texts(b@));
    }
    same_prefix(a, b, a.len())
}

/// A copy of `v` that holds the same texts.
pub fn clone_strings(v: &Vec<String>) -> (r: Vec<String>)
    ensures
        texts(r@) == texts(v@),
{
    let mut out: Vec<String> = Vec::new();
    let mut i: usize = 0;
    while i < v.len()
        invariant
            i <= v.len(),
            out@.len() == i,
            forall|j: int| 0 <= j < i ==> out@[j]@ == v@[j]@,
        decreases v.len() - i,
    {
        out.push(v[i].clone());
        i = i + 1;
    }
    proof {
        assert(texts(out@) =~= texts(v@));
    }
    out
}

/// Joins the strings of `parts` with `sep` between each two neighbours.
pub fn join_strings(parts: &Vec<String>, sep: &str) -> (r: String)
    ensures
        r@ == join(texts(parts@), sep@),
{
    let mut out: String = String::new();
    let mut i: usize = 0;
    while i < parts.len()
        invariant
            i <= parts.len(),
            out@ == join(texts(parts@).subrange(0, i as int), sep@),
        decreases parts.len() - i,
    {
        proof {
            let next = texts(parts@).subrange(0, i + 1);
            assert(next.drop_last() =~= texts(parts@).subrange(0, i as int));
            assert(next.last() == parts@[i as int]@);
            if i == 0 {
                assert(out@ + parts@[i as int]@ =~= parts@[i as int]@);
            }
        }
        if i > 0 {
            out.append(sep);
        }
        out.append(parts[i].as_str());
        i = i + 1;
    }
    proof {
        assert(texts(parts@).subrange(0, parts.len() as int) =~= texts(parts@));
    }
    out
}

} // verus!
