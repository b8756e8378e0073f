//! Calendar dates, ordered by calendar value and written `YYYY-MM-DD`.

use crate::decimal::pow10;
use core::cmp::Ordering;
use vstd::prelude::*;
use vstd::string::StrSliceExecFns;

verus! {

/// Largest year that a date can hold: nine digits.
pub const MAX_YEAR: u32 = 999999999u32;

/// Whether `c` is one of the ten decimal digits.
pub open spec fn is_digit(c: char) -> bool {
    48 <= c as int <= 57
}

/// The value of a decimal digit.
pub open spec fn digit_value(c: char) -> int {
    c as int - 48
}

/// The character of the decimal digit `d`.
pub open spec fn digit_char(d: int) -> char {
    (d + 48) as char
}

/// Whether `s` consists of decimal digits only.
pub open spec fn all_digits(s: Seq<char>) -> bool {
    forall|i: int| 0 <= i < s.len() ==> is_digit(#[trigger] s[i])
}

/// The number that the digits of `s` write.
pub open spec fn digits_value(s: Seq<char>) -> int
    decreases s.len(),
{
    if s.len() == 0 {
        0
    } else {
        10 * digits_value(s.drop_last()) + digit_value(s.last())
    }
}

/// The last `width` digits of `n`, with leading zeros.
pub open spec fn fixed_digits(n: int, width: nat) -> Seq<char>
    decreases width,
{
    if width == 0 {
        Seq::empty()
    } else {
        fixed_digits(n / 10, (width - 1) as nat).push(digit_char(n % 10))
    }
}

/// The digits of `n`, without leading zeros.
pub open spec fn number_digits(n: int) -> Seq<char>
    decreases n,
{
    if n < 10 {
        seq![digit_char(n)]
    } else {
        number_digits(n / 10).push(digit_char(n % 10))
    }
}

/// Whether `c` may stand between the fields of a date.
pub open spec fn is_date_separator(c: char) -> bool {
    c == '-' || c == '/'
}

/// Whether `year` is a leap year of the Gregorian calendar.
pub open spec fn is_leap_year(year: int) -> bool {
    (year % 4 == 0 && year % 100 != 0) || year % 400 == 0
}

/// The number of days of `month` in `year`; 0 where `month` is no month.
pub open spec fn days_in_month(year: int, month: int) -> int {
    if month == 1 || month == 3 || month == 5 || month == 7 || month == 8 || month == 10 || month
        == 12 {
        31
    } else if month == 4 || month == 6 || month == 9 || month == 11 {
        30
    } else if month == 2 {
        if is_leap_year(year) {
            29
        } else {
            28
        }
    } else {
        0
    }
}

/// Mathematical model of a date: year, month and day.
pub struct Ymd {
    pub year: int,
    pub month: int,
    pub day: int,
}

impl Ymd {
    /// Whether the three numbers name a day of the calendar.
    pub open spec fn valid(self) -> bool {
        &&& 0 <= self.year <= MAX_YEAR
        &&& 1 <= self.month <= 12
        &&& 1 <= self.day <= days_in_month(self.year, self.month)
    }

    /// Calendar order: `self` is an earlier day than `other`.
    pub open spec fn before(self, other: Ymd) -> bool {
        self.year < other.year || (self.year == other.year && (self.month < other.month || (
        self.month == other.month && self.day < other.day)))
    }

    /// A number that grows with the calendar: later days have larger
    /// numbers.
    pub open spec fn ordinal(self) -> int {
        (self.year * 16 + self.month) * 32 + self.day
    }

    /// The three-way calendar comparison.
    pub open spec fn compare(self, other: Ymd) -> Ordering {
        if self.before(other) {
            Ordering::Less
        } else if self == other {
            Ordering::Equal
        } else {
            Ordering::Greater
        }
    }

    /// The date as text: the year with at least four digits, then month and
    /// day with two digits each, separated by dashes.
    pub open spec fn text(self) -> Seq<char> {
        let year = if self.year < 1000 {
            fixed_digits(self.year, 4)
        } else {
            number_digits(self.year)
        };
        year + seq!['-'] + fixed_digits(self.month, 2) + seq!['-'] + fixed_digits(self.day, 2)
    }

    /// The date that a text writes: a year of four to nine digits, a month
    /// and a day of two digits each, separated by `-` or `/`, naming a day of
    /// the calendar. `None` for any other text.
    pub open spec fn parsed(s: Seq<char>) -> Option<Ymd> {
        let n = s.len() as int;
        if 10 <= n <= 15 {
            let y = s.subrange(0, n - 6);
            let m = s.subrange(n - 5, n - 3);
            let d = s.subrange(n - 2, n);
            let v = Ymd { year: digits_value(y), month: digits_value(m), day: digits_value(d) };
            if all_digits(y) && is_date_separator(s[n - 6]) && all_digits(m) && is_date_separator(
                s[n - 3],
            ) && all_digits(d) && v.valid() {
                Some(v)
            } else {
                None
            }
        } else {
            None
        }
    }
}

/// Of two days of the calendar, the earlier has the smaller ordinal, and
/// the same ordinal means the same day.
pub proof fn lemma_ordinal_order(a: Ymd, b: Ymd)
    requires
        a.valid(),
        b.valid(),
    ensures
        a.before(b) <==> a.ordinal() < b.ordinal(),
        a == b <==> a.ordinal() == b.ordinal(),
{
}

/// The digits of a number below `10^width`, written with `width` digits,
/// write that number.
pub proof fn lemma_fixed_digits(n: int, width: nat)
    requires
        0 <= n < pow10(width),
    ensures
        fixed_digits(n, width).len() == width,
        all_digits(fixed_digits(n, width)),
        digits_value(fixed_digits(n, width)) == n,
    decreases width,
{
    if width > 0 {
        lemma_fixed_digits(n / 10, (width - 1) as nat);
        let head = fixed_digits(n / 10, (width - 1) as nat);
        let all = fixed_digits(n, width);
        assert(all.drop_last() =~= head);
        assert(all.last() == digit_char(n % 10));
        assert forall|i: int| 0 <= i < all.len() implies is_digit(#[trigger] all[i]) by {
            if i < head.len() {
                assert(all[i] == head[i]);
            }
        }
    }
}

/// A number below `10^k` has at most `k` digits, and a number that is not
/// below `10^(k-1)` has at least `k`.
pub proof fn lemma_number_digits_len(n: int, k: nat)
    requires
        0 <= n,
        k >= 1,
    ensures
        n < pow10(k) ==> number_digits(n).len() <= k,
        n >= pow10((k - 1) as nat) ==> number_digits(n).len() >= k,
    decreases k,
{
    reveal_with_fuel(pow10, 3);
    if n >= 10 && k >= 2 {
        lemma_number_digits_len(n / 10, (k - 1) as nat);
        crate::decimal::lemma_pow10_positive((k - 2) as nat);
    } else if n < 10 && k >= 2 {
        crate::decimal::lemma_pow10_positive((k - 2) as nat);
    }
}

/// The digits of a number write that number.
pub proof fn lemma_number_digits(n: int)
    requires
        0 <= n,
    ensures
        number_digits(n).len() >= 1,
        all_digits(number_digits(n)),
        digits_value(number_digits(n)) == n,
    decreases n,
{
    let all = number_digits(n);
    if n < 10 {
        assert(all.drop_last() =~= Seq::<char>::empty());
        assert(digits_value(all.drop_last()) == 0);
    } else {
        lemma_number_digits(n / 10);
        let head = number_digits(n / 10);
        assert(all.drop_last() =~= head);
        assert(all.last() == digit_char(n % 10));
        assert forall|i: int| 0 <= i < all.len() implies is_digit(#[trigger] all[i]) by {
            if i < head.len() {
                assert(all[i] == head[i]);
            }
        }
    }
}

/// The text of a day of the calendar is read as that day.
pub proof fn lemma_text_round_trip(d: Ymd)
    requires
        d.valid(),
    ensures
        Ymd::parsed(d.text()) == Some(d),
{
    reveal_with_fuel(pow10, 11);
    let year = if d.year < 1000 {
        fixed_digits(d.year, 4)
    } else {
        number_digits(d.year)
    };
    if d.year < 1000 {
        lemma_fixed_digits(d.year, 4);
    } else {
        lemma_number_digits(d.year);
        lemma_number_digits_len(d.year, 4);
        lemma_number_digits_len(d.year, 9);
    }
    lemma_fixed_digits(d.month, 2);
    lemma_fixed_digits(d.day, 2);
    let month = fixed_digits(d.month, 2);
    let day = fixed_digits(d.day, 2);
    let s = d.text();
    let n = s.len() as int;
    assert(n == year.len() + 6);
    assert(s.subrange(0, n - 6) =~= year);
    assert(s.subrange(n - 5, n - 3) =~= month);
    assert(s.subrange(n - 2, n) =~= day);
    assert(s[n - 6] == '-');
    assert(s[n - 3] == '-');
}

#[verifier::external_type_specification]
#[verifier::external_body]
pub struct ExNaiveDate(chrono::NaiveDate);

/// The text that `chrono` prints for a date in the format `%Y-%m-%d`.
pub uninterp spec fn naive_date_text(d: chrono::NaiveDate) -> Seq<char>;

/// Rendering by `chrono::NaiveDate::format` with the format `%Y-%m-%d`.
///
/// Trusted: the text depends on the date alone.
#[verifier::external_body]
fn text_outside(d: &chrono::NaiveDate) -> (r: String)
    ensures
        r@ == naive_date_text(*d),
{
    d.format("%Y-%m-%d").to_string()
}

/// The decimal digit that `c` writes, if it is one.
fn char_to_digit(c: char) -> (r: Option<u8>)
    ensures
        r is Some <==> is_digit(c),
        r is Some ==> r->0 == digit_value(c),
{
    match c {
        '0' => Some(0u8),
        '1' => Some(1u8),
        '2' => Some(2u8),
        '3' => Some(3u8),
        '4' => Some(4u8),
        '5' => Some(5u8),
        '6' => Some(6u8),
        '7' => Some(7u8),
        '8' => Some(8u8),
        '9' => Some(9u8),
        _ => None,
    }
}

/// The character that writes the decimal digit `d`.
fn digit_to_char(d: u8) -> (r: char)
    requires
        d < 10,
    ensures
        r == digit_char(d as int),
{
    match d {
        0 => '0',
        1 => '1',
        2 => '2',
        3 => '3',
        4 => '4',
        5 => '5',
        6 => '6',
        7 => '7',
        8 => '8',
        _ => '9',
    }
}

/// Up to nine digits write a number below `10^9`.
proof fn lemma_pow10_small(k: nat)
    requires
        k <= 9,
    ensures
        pow10(k) <= 1000000000,
{
    reveal_with_fuel(pow10, 11);
}

/// Reads the number that the characters of `s` from `from` up to `to` write.
fn parse_digits(s: &str, from: usize, to: usize) -> (r: Option<u32>)
    requires
        from <= to <= s@.len(),
        to - from <= 9,
    ensures
        r is Some <==> all_digits(s@.subrange(from as int, to as int)),
        r is Some ==> r->0 == digits_value(s@.subrange(from as int, to as int)),
{
    let mut acc: u32 = 0;
    let mut i: usize = from;
    while i < to
        invariant
            from <= i <= to <= s@.len(),
            to - from <= 9,
            all_digits(s@.subrange(from as int, i as int)),
            acc == digits_value(s@.subrange(from as int, i as int)),
            acc < pow10((i - from) as nat),
        decreases to - i,
    {
        let c: char = s.get_char(i);
        proof {
            lemma_pow10_small((i - from) as nat);
            lemma_pow10_small((i + 1 - from) as nat);
            let t = s@.subrange(from as int, i + 1);
            assert(t.drop_last() =~= s@.subrange(from as int, i as int));
            assert(t.last() == c);
        }
        match char_to_digit(c) {
            Some(d) => {
                proof {
                    let t = s@.subrange(from as int, i + 1);
                    assert forall|j: int| 0 <= j < t.len() implies is_digit(#[trigger] t[j]) by {
                        if j < t.len() - 1 {
                            assert(t[j] == s@.subrange(from as int, i as int)[j]);
                        }
                    }
                    assert(pow10((i + 1 - from) as nat) == 10 * pow10((i - from) as nat));
                }
                acc = acc * 10 + d as u32;
            },
            None => {
                proof {
                    let t = s@.subrange(from as int, to as int);
                    assert(t[i - from] == c);
                }
                return None;
            },
        }
        i = i + 1;
    }
    Some(acc)
}

/// Appends the last `width` digits of `n`, with leading zeros.
fn push_fixed(out: &mut String, n: u32, width: u8)
    ensures
        final(out)@ == old(out)@ + fixed_digits(n as int, width as nat),
    decreases width,
{
    if width > 0 {
        push_fixed(out, n / 10, width - 1);
        let ghost before = out@;
        out.push(digit_to_char((n % 10) as u8));
        proof {
            let head = fixed_digits((n / 10) as int, (width - 1) as nat);
            assert(before.push(digit_char((n % 10) as int)) =~= old(out)@ + head.push(
                digit_char((n % 10) as int),
            ));
        }
    } else {
        proof {
            assert(out@ + Seq::<char>::empty() =~= out@);
        }
    }
}

/// Appends the digits of `n`, without leading zeros.
fn push_number(out: &mut String, n: u32)
    ensures
        final(out)@ == old(out)@ + number_digits(n as int),
    decreases n,
{
    if n < 10 {
        out.push(digit_to_char(n as u8));
        proof {
            assert(old(out)@.push(digit_char(n as int)) =~= old(out)@ + seq![digit_char(n as int)]);
        }
    } else {
        push_number(out, n / 10);
        let ghost before = out@;
        out.push(digit_to_char((n % 10) as u8));
        proof {
            let head = number_digits((n / 10) as int);
            assert(before.push(digit_char((n % 10) as int)) =~= old(out)@ + head.push(
                digit_char((n % 10) as int),
            ));
        }
    }
}

/// The number of days of `month` in `year`; 0 where `month` is no month.
fn month_length(year: u32, month: u8) -> (r: u8)
    ensures
        r == days_in_month(year as int, month as int),
{
    if month == 1 || month == 3 || month == 5 || month == 7 || month == 8 || month == 10 || month
        == 12 {
        31
    } else if month == 4 || month == 6 || month == 9 || month == 11 {
        30
    } else if month == 2 {
        if (year % 4 == 0 && year % 100 != 0) || year % 400 == 0 {
            29
        } else {
            28
        }
    } else {
        0
    }
}

/// A day of the calendar.
#[derive(Clone, Copy, Debug, PartialEq, Eq, Ord, Hash, Structural)]
pub struct Date {
    year: u32,
    month: u8,
    day: u8,
}

impl View for Date {
    type V = Ymd;

    closed spec fn view(&self) -> Ymd {
        Ymd { year: self.year as int, month: self.month as int, day: self.day as int }
    }
}

impl Date {
    #[verifier::type_invariant]
    closed spec fn is_calendar_day(self) -> bool {
        self@.valid()
    }

    /// The date of the given year, month and day, if there is such a day.
    pub fn from_ymd(year: u32, month: u8, day: u8) -> (r: Option<Date>)
        ensures
            match r {
                Some(d) => d@ == (Ymd { year: year as int, month: month as int, day: day as int })
                    && d@.valid(),
                None => !(Ymd { year: year as int, month: month as int, day: day as int }).valid(),
            },
    {
        if year <= MAX_YEAR && 1 <= month && month <= 12 && 1 <= day && day <= month_length(
            year,
            month,
        ) {
            Some(Date { year, month, day })
        } else {
            None
        }
    }

    /// Reads a date written as year, month and day, separated by `-` or `/`.
    pub fn parse(s: &str) -> (r: Option<Date>)
        ensures
            match r {
                Some(d) => Ymd::parsed(s@) == Some(d@),
                None => Ymd::parsed(s@) is None,
            },
    {
        let n: usize = s.unicode_len();
        if n < 10 || n > 15 {
            return None;
        }
        let year: u32 = match parse_digits(s, 0, n - 6) {
            Some(v) => v,
            None => { return None; },
        };
        let month: u32 = match parse_digits(s, n - 5, n - 3) {
            Some(v) => v,
            None => { return None; },
        };
        let day: u32 = match parse_digits(s, n - 2, n) {
            Some(v) => v,
            None => { return None; },
        };
        let a: char = s.get_char(n - 6);
        let b: char = s.get_char(n - 3);
        if !((a == '-' || a == '/') && (b == '-' || b == '/')) {
            return None;
        }
        if month > 12 || day > 31 {
            return None;
        }
        Date::from_ymd(year, month as u8, day as u8)
    }

    /// The date of a `chrono` date, read from the text that `chrono`
    /// prints for it. `None` for a date before the year 0 or behind the
    /// year 9999: their years `chrono` prints with a sign.
    pub fn from_naive_date(d: &chrono::NaiveDate) -> (r: Option<Date>)
        ensures
            match r {
                Some(x) => Ymd::parsed(naive_date_text(*d)) == Some(x@),
                None => Ymd::parsed(naive_date_text(*d)) is None,
            },
    {
        let text: String = text_outside(d);
        Date::parse(text.as_str())
    }

    /// The date that `s` writes. The text must write a date.
    pub fn from_str_unchecked(s: &str) -> (r: Date)
        requires
            Ymd::parsed(s@) is Some,
        ensures
            Ymd::parsed(s@) == Some(r@),
    {
        match Date::parse(s) {
            Some(d) => d,
            None => vstd::pervasive::unreached(),
        }
    }

    /// The date that `s` writes. The text must write a date.
    pub fn from_string_unchecked(s: String) -> (r: Date)
        requires
            Ymd::parsed(s@) is Some,
        ensures
            Ymd::parsed(s@) == Some(r@),
    {
        Date::from_str_unchecked(s.as_str())
    }

    /// The date that `s` writes. The text must write a date.
    pub fn from_cow_unchecked(s: &str) -> (r: Date)
        requires
            Ymd::parsed(s@) is Some,
        ensures
            Ymd::parsed(s@) == Some(r@),
    {
        Date::from_str_unchecked(s)
    }

    pub fn year(&self) -> (r: u32)
        ensures
            r == self@.year,
    {
        self.year
    }

    pub fn month(&self) -> (r: u8)
        ensures
            r == self@.month,
    {
        self.month
    }

    pub fn day(&self) -> (r: u8)
        ensures
            r == self@.day,
    {
        self.day
    }

    /// A number that grows with the calendar.
    pub fn ordinal(&self) -> (r: u64)
        ensures
            r == self@.ordinal(),
            self@.valid(),
    {
        proof {
            use_type_invariant(self);
        }
        ((self.year as u64) * 16 + self.month as u64) * 32 + self.day as u64
    }

    /// Whether `self` is an earlier day than `other`.
    pub fn is_before(&self, other: &Date) -> (r: bool)
        ensures
            r == self@.before(other@),
    {
        self.year < other.year || (self.year == other.year && (self.month < other.month || (
        self.month == other.month && self.day < other.day)))
    }

    /// The date as text, `YYYY-MM-DD`.
    pub fn to_string(&self) -> (r: String)
        ensures
            r@ == self@.text(),
    {
        let mut out: String = String::new();
        if self.year < 1000 {
            push_fixed(&mut out, self.year, 4);
        } else {
            push_number(&mut out, self.year);
        }
        let ghost year = out@;
        out.push('-');
        push_fixed(&mut out, self.month as u32, 2);
        out.push('-');
        push_fixed(&mut out, self.day as u32, 2);
        proof {
            assert(Seq::<char>::empty() + year =~= year);
            assert(year.push('-') =~= year + seq!['-']);
            let upto = year + seq!['-'] + fixed_digits(self.month as int, 2);
            assert(upto.push('-') =~= upto + seq!['-']);
        }
        out
    }
}

impl From<Date> for String {
    /// The date as text, `YYYY-MM-DD`.
    fn from(d: Date) -> (r: String)
        ensures
            r@ == d@.text(),
    {
        d.to_string()
    }
}

impl vstd::std_specs::convert::FromSpecImpl<Date> for String {
    /// No string can be written down in a contract, only its text: what
    /// `from` returns is stated on `from` itself.
    open spec fn obeys_from_spec() -> bool {
        false
    }

    open spec fn from_spec(d: Date) -> String {
        arbitrary()
    }
}

impl PartialOrd for Date {
    fn partial_cmp(&self, other: &Date) -> (r: Option<Ordering>) {
        if self.is_before(other) {
            Some(Ordering::Less)
        } else if self.year == other.year && self.month == other.month && self.day == other.day {
            Some(Ordering::Equal)
        } else {
            Some(Ordering::Greater)
        }
    }
}

impl vstd::std_specs::cmp::PartialOrdSpecImpl for Date {
    open spec fn obeys_partial_cmp_spec() -> bool {
        true
    }

    open spec fn partial_cmp_spec(&self, other: &Date) -> Option<Ordering> {
        Some(self@.compare(other@))
    }
}

} // verus!
