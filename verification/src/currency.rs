//! Currencies, also called commodities: short upper-case names such as
//! `USD`, `MSFT` or `VACHR`.

use vstd::prelude::*;
use vstd::string::StrSliceExecFns;

verus! {

/// The name of a currency or commodity. Two currencies are the same exactly
/// when their names are the same text.
pub type Currency = String;

/// Longest currency name.
pub const MAX_CURRENCY_LEN: usize = 24;

/// Whether `c` is an upper-case letter `A` to `Z`.
pub open spec fn is_upper(c: char) -> bool {
    65 <= c as int <= 90
}

/// Whether `c` is a decimal digit.
pub open spec fn is_numeral(c: char) -> bool {
    48 <= c as int <= 57
}

/// Whether `c` is one of the marks `'`, `.`, `_` and `-`.
pub open spec fn is_currency_mark(c: char) -> bool {
    c == '\'' || c == '.' || c == '_' || c == '-'
}

/// Whether `s` is written like a currency: at most 24 characters, first an
/// upper-case letter, last an upper-case letter or a digit, and between them
/// upper-case letters, digits and the marks `'`, `.`, `_`, `-`.
pub open spec fn is_currency_text(s: Seq<char>) -> bool {
    &&& 2 <= s.len() <= MAX_CURRENCY_LEN
    &&& is_upper(s[0])
    &&& is_upper(s.last()) || is_numeral(s.last())
    &&& forall|i: int|
        0 < i < s.len() - 1 ==> is_upper(#[trigger] s[i]) || is_numeral(s[i]) || is_currency_mark(
            s[i],
        )
}

fn upper(c: char) -> (r: bool)
    ensures
        r == is_upper(c),
{
    'A' <= c && c <= 'Z'
}

fn numeral(c: char) -> (r: bool)
    ensures
        r == is_numeral(c),
{
    '0' <= c && c <= '9'
}

/// Whether `s` is written like a currency.
pub fn is_valid_currency(s: &str) -> (r: bool)
    ensures
        r == is_currency_text(s@),
{
    let n: usize = s.unicode_len();
    if n < 2 || n > MAX_CURRENCY_LEN {
        return false;
    }
    let first: char = s.get_char(0);
    let last: char = s.get_char(n - 1);
    if !upper(first) || !(upper(last) || numeral(last)) {
        return false;
    }
    let mut i: usize = 1;
    while i < n - 1
        invariant
            1 <= i <= n - 1,
            n == s@.len(),
            forall|j: int|
                0 < j < i ==> is_upper(#[trigger] s@[j]) || is_numeral(s@[j]) || is_currency_mark(
                    s@[j],
                ),
        decreases n - i,
    {
        let c: char = s.get_char(i);
        if !(upper(c) || numeral(c) || c == '\'' || c == '.' || c == '_' || c == '-') {
            return false;
        }
        i = i + 1;
    }
    true
}

} // verus!
