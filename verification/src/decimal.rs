//! Exact decimal numbers: a signed 96-bit mantissa scaled by a power of ten.
//!
//! A [`Decimal`] stands for the rational number `mantissa / 10^scale`. The
//! scale is kept as written (`1.50` and `1.5` are different representations
//! of equal numbers), because the number of decimal places of an amount
//! carries meaning for balancing tolerances.
//!
//! Sums, differences and products are exact or there are none: a result
//! that does not fit the range is not rounded. Comparison, division,
//! printing and parsing are those of the `rust_decimal` crate, whose range
//! this type shares.

use core::cmp::Ordering;
use vstd::prelude::*;

verus! {

/// Largest magnitude of a mantissa: `2^96 - 1`.
pub const MAX_MANTISSA: i128 = 79228162514264337593543950335i128;

/// `MAX_MANTISSA / 10`, rounded down: the largest magnitude that can take
/// one more decimal place.
pub const MAX_MANTISSA_TENTH: i128 = 7922816251426433759354395033i128;

/// Largest number of decimal places.
pub const MAX_SCALE: u32 = 28u32;

/// `10^n`.
pub open spec fn pow10(n: nat) -> int
    decreases n,
{
    if n == 0 {
        1
    } else {
        10 * pow10((n - 1) as nat)
    }
}

/// Mathematical model of a decimal number: `mantissa / 10^scale`.
pub struct Dec {
    pub mantissa: int,
    pub scale: nat,
}

impl Dec {
    /// The representable range.
    pub open spec fn in_range(self) -> bool {
        -MAX_MANTISSA <= self.mantissa <= MAX_MANTISSA && self.scale <= MAX_SCALE
    }

    /// The mantissa that the number has when written with `scale` decimal
    /// places, for `scale >= self.scale`.
    pub open spec fn scaled_to(self, scale: nat) -> int
        recommends
            self.scale <= scale,
    {
        self.mantissa * pow10((scale - self.scale) as nat)
    }

    /// The number with the opposite sign.
    pub open spec fn neg(self) -> Dec {
        Dec { mantissa: -self.mantissa, scale: self.scale }
    }

    /// The magnitude of the number.
    pub open spec fn abs(self) -> Dec {
        Dec { mantissa: if self.mantissa < 0 { -self.mantissa } else { self.mantissa }, scale: self.scale }
    }

    /// The exact product; its decimal places are those of both factors.
    pub open spec fn mul(self, other: Dec) -> Dec {
        Dec { mantissa: self.mantissa * other.mantissa, scale: self.scale + other.scale }
    }

    /// The larger of the two scales.
    pub open spec fn common_scale(self, other: Dec) -> nat {
        if self.scale >= other.scale {
            self.scale
        } else {
            other.scale
        }
    }

    /// The exact sum, written at the larger of the two scales.
    pub open spec fn add(self, other: Dec) -> Dec {
        let s = self.common_scale(other);
        Dec { mantissa: self.scaled_to(s) + other.scaled_to(s), scale: s }
    }

    /// Whether the sum can be formed: both operands, written at the larger
    /// scale, and their sum are in range.
    pub open spec fn add_fits(self, other: Dec) -> bool {
        let s = self.common_scale(other);
        &&& -MAX_MANTISSA <= self.scaled_to(s) <= MAX_MANTISSA
        &&& -MAX_MANTISSA <= other.scaled_to(s) <= MAX_MANTISSA
        &&& self.add(other).in_range()
    }

    /// The product where it is in range.
    pub open spec fn checked_mul(self, other: Dec) -> Option<Dec> {
        if self.mul(other).in_range() {
            Some(self.mul(other))
        } else {
            None
        }
    }

    /// The sum where it can be formed in range.
    pub open spec fn checked_add(self, other: Dec) -> Option<Dec> {
        if self.add_fits(other) {
            Some(self.add(other))
        } else {
            None
        }
    }

    /// The difference where it can be formed in range.
    pub open spec fn checked_sub(self, other: Dec) -> Option<Dec> {
        self.checked_add(other.neg())
    }

    /// The quotient as `rust_decimal` rounds it, where there is one in range.
    pub open spec fn checked_div(self, other: Dec) -> Option<Dec> {
        match decimal_quotient(self.mantissa, self.scale, other.mantissa, other.scale) {
            Some(q) => if (Dec { mantissa: q.0, scale: q.1 }).in_range() {
                Some(Dec { mantissa: q.0, scale: q.1 })
            } else {
                None
            },
            None => None,
        }
    }

    /// The sign of the number as a number: -1, 0 or 1.
    pub open spec fn signum(self) -> Dec {
        Dec {
            mantissa: if self.mantissa < 0 {
                -1
            } else if self.mantissa == 0 {
                0
            } else {
                1
            },
            scale: 0,
        }
    }

    /// Numeric equality: `1.50` equals `1.5`.
    pub open spec fn num_eq(self, other: Dec) -> bool {
        self.mantissa * pow10(other.scale) == other.mantissa * pow10(self.scale)
    }

    /// Numeric strict order.
    pub open spec fn num_lt(self, other: Dec) -> bool {
        self.mantissa * pow10(other.scale) < other.mantissa * pow10(self.scale)
    }

    /// Numeric order, reflexive.
    pub open spec fn num_le(self, other: Dec) -> bool {
        self.mantissa * pow10(other.scale) <= other.mantissa * pow10(self.scale)
    }

    /// The three-way numeric comparison.
    pub open spec fn compare(self, other: Dec) -> Ordering {
        if self.num_lt(other) {
            Ordering::Less
        } else if self.num_eq(other) {
            Ordering::Equal
        } else {
            Ordering::Greater
        }
    }
}

/// An exact decimal number with at most 28 decimal places and a mantissa of
/// at most 96 bits.
#[derive(Clone, Copy, Debug)]
pub struct Decimal {
    mantissa: i128,
    scale: u32,
}

impl View for Decimal {
    type V = Dec;

    closed spec fn view(&self) -> Dec {
        Dec { mantissa: self.mantissa as int, scale: self.scale as nat }
    }
}

impl Decimal {
    #[verifier::type_invariant]
    closed spec fn valid(self) -> bool {
        self@.in_range()
    }

    /// The number `mantissa / 10^scale`, if it is representable.
    pub fn try_new(mantissa: i128, scale: u32) -> (r: Option<Decimal>)
        ensures
            r is Some <==> (Dec { mantissa: mantissa as int, scale: scale as nat }).in_range(),
            r is Some ==> r->0@ == (Dec { mantissa: mantissa as int, scale: scale as nat }),
    {
        if scale <= MAX_SCALE && -MAX_MANTISSA <= mantissa && mantissa <= MAX_MANTISSA {
            Some(Decimal { mantissa, scale })
        } else {
            None
        }
    }

    /// Zero, written without decimal places.
    pub fn zero() -> (r: Decimal)
        ensures
            r@ == (Dec { mantissa: 0, scale: 0 }),
    {
        Decimal { mantissa: 0, scale: 0 }
    }

    /// The integer `n`, written without decimal places.
    pub fn from_int(n: i64) -> (r: Decimal)
        ensures
            r@ == (Dec { mantissa: n as int, scale: 0 }),
    {
        Decimal { mantissa: n as i128, scale: 0 }
    }

    /// The mantissa; its magnitude is at most `MAX_MANTISSA`.
    pub fn mantissa(&self) -> (r: i128)
        ensures
            r == self@.mantissa,
            self@.in_range(),
    {
        proof {
            use_type_invariant(self);
        }
        self.mantissa
    }

    /// The number of decimal places; at most `MAX_SCALE`.
    pub fn scale(&self) -> (r: u32)
        ensures
            r == self@.scale,
            self@.in_range(),
    {
        proof {
            use_type_invariant(self);
        }
        self.scale
    }
}

/// Powers of ten are positive.
pub proof fn lemma_pow10_positive(n: nat)
    ensures
        pow10(n) >= 1,
    decreases n,
{
    if n > 0 {
        lemma_pow10_positive((n - 1) as nat);
    }
}

/// `10^(a+b) = 10^a * 10^b`.
pub proof fn lemma_pow10_add(a: nat, b: nat)
    ensures
        pow10(a + b) == pow10(a) * pow10(b),
    decreases a,
{
    if a > 0 {
        lemma_pow10_add((a - 1) as nat, b);
        assert(pow10(a + b) == 10 * pow10((a - 1 + b) as nat));
        assert(10 * (pow10((a - 1) as nat) * pow10(b)) == (10 * pow10((a - 1) as nat)) * pow10(b))
            by (nonlinear_arith);
    } else {
        assert(pow10(a) == 1);
        assert(a + b == b);
    }
}

/// The numeric order is a strict order that numeric equality respects: no
/// number is below itself, of two numbers exactly one is below the other or
/// they are equal, and the order is transitive.
pub proof fn lemma_order_is_strict(a: Dec, b: Dec, c: Dec)
    ensures
        !a.num_lt(a),
        a.num_eq(a),
        a.num_lt(b) ==> !b.num_lt(a) && !a.num_eq(b),
        a.num_eq(b) <==> b.num_eq(a),
        a.num_le(b) <==> a.num_lt(b) || a.num_eq(b),
        a.num_lt(b) || a.num_eq(b) || b.num_lt(a),
        a.num_lt(b) && b.num_lt(c) ==> a.num_lt(c),
        a.num_eq(b) && b.num_eq(c) ==> a.num_eq(c),
        a.num_le(b) && b.num_le(c) ==> a.num_le(c),
{
    lemma_pow10_positive(a.scale);
    lemma_pow10_positive(b.scale);
    lemma_pow10_positive(c.scale);
    let pa = pow10(a.scale);
    let pb = pow10(b.scale);
    let pc = pow10(c.scale);
    let (x, y, z) = (a.mantissa, b.mantissa, c.mantissa);
    assert(x * pb < y * pa && y * pc < z * pb ==> x * pc < z * pa) by (nonlinear_arith)
        requires
            pa >= 1,
            pb >= 1,
            pc >= 1,
    ;
    assert(x * pb == y * pa && y * pc == z * pb ==> x * pc == z * pa) by (nonlinear_arith)
        requires
            pa >= 1,
            pb >= 1,
            pc >= 1,
    ;
    assert(x * pb <= y * pa && y * pc <= z * pb ==> x * pc <= z * pa) by (nonlinear_arith)
        requires
            pa >= 1,
            pb >= 1,
            pc >= 1,
    ;
}

/// Addition is exact: written with enough decimal places, the sum is the
/// sum of the two numbers written with as many.
pub proof fn lemma_add_exact(a: Dec, b: Dec, scale: nat)
    requires
        a.scale <= scale,
        b.scale <= scale,
    ensures
        a.add(b).scale <= scale,
        a.add(b).scaled_to(scale) == a.scaled_to(scale) + b.scaled_to(scale),
{
    let s = a.common_scale(b);
    lemma_pow10_add((s - a.scale) as nat, (scale - s) as nat);
    lemma_pow10_add((s - b.scale) as nat, (scale - s) as nat);
    let pa = pow10((s - a.scale) as nat);
    let pb = pow10((s - b.scale) as nat);
    let up = pow10((scale - s) as nat);
    assert((s - a.scale) as nat + (scale - s) as nat == (scale - a.scale) as nat);
    assert((s - b.scale) as nat + (scale - s) as nat == (scale - b.scale) as nat);
    assert((a.mantissa * pa + b.mantissa * pb) * up == a.mantissa * (pa * up) + b.mantissa * (pb
        * up)) by (nonlinear_arith);
}

/// The three-way comparison says `Less`, `Equal` or `Greater` exactly when
/// the first number is below, equal to or above the second, and comparing
/// the other way round gives the opposite answer.
pub proof fn lemma_compare(a: Dec, b: Dec)
    ensures
        a.compare(b) == Ordering::Less <==> a.num_lt(b),
        a.compare(b) == Ordering::Equal <==> a.num_eq(b),
        a.compare(b) == Ordering::Greater <==> b.num_lt(a),
        a.compare(b) == Ordering::Less <==> b.compare(a) == Ordering::Greater,
        a.compare(b) == Ordering::Equal <==> b.compare(a) == Ordering::Equal,
{
}

/// `m * 10^k`, if its magnitude stays within the mantissa range.
fn scale_up(m: i128, k: u32) -> (r: Option<i128>)
    requires
        -MAX_MANTISSA <= m <= MAX_MANTISSA,
        k <= MAX_SCALE,
    ensures
        r is Some <==> -MAX_MANTISSA <= m * pow10(k as nat) <= MAX_MANTISSA,
        r is Some ==> r->0 == m * pow10(k as nat),
{
    let mut cur: i128 = m;
    let mut i: u32 = 0;
    while i < k
        invariant
            i <= k <= MAX_SCALE,
            cur == m * pow10(i as nat),
            -MAX_MANTISSA <= cur <= MAX_MANTISSA,
        decreases k - i,
    {
        if cur > MAX_MANTISSA_TENTH || cur < -MAX_MANTISSA_TENTH {
            proof {
                let rest = (k - i) as nat;
                lemma_pow10_add(i as nat, rest);
                lemma_pow10_positive((rest - 1) as nat);
                let p = pow10(rest);
                assert(p >= 10);
                assert(m * pow10(k as nat) == cur * p) by (nonlinear_arith)
                    requires
                        cur == m * pow10(i as nat),
                        pow10(k as nat) == pow10(i as nat) * p,
                ;
                assert(cur > MAX_MANTISSA_TENTH ==> cur * p > MAX_MANTISSA) by (nonlinear_arith)
                    requires
                        p >= 10,
                        cur > MAX_MANTISSA_TENTH ==> cur * 10 > MAX_MANTISSA,
                ;
                assert(cur < -MAX_MANTISSA_TENTH ==> cur * p < -MAX_MANTISSA) by (nonlinear_arith)
                    requires
                        p >= 10,
                        cur < -MAX_MANTISSA_TENTH ==> cur * 10 < -MAX_MANTISSA,
                ;
            }
            return None;
        }
        proof {
            assert(pow10((i + 1) as nat) == 10 * pow10(i as nat));
            assert(cur * 10 == m * pow10((i + 1) as nat)) by (nonlinear_arith)
                requires
                    cur == m * pow10(i as nat),
                    pow10((i + 1) as nat) == 10 * pow10(i as nat),
            ;
        }
        cur = cur * 10;
        i = i + 1;
    }
    Some(cur)
}

/// The text that `rust_decimal` prints for `mantissa / 10^scale`.
pub uninterp spec fn decimal_text(mantissa: int, scale: nat) -> Seq<char>;

/// What `rust_decimal` reads from a text: mantissa and scale, or nothing
/// where the text is not an exact decimal number.
pub uninterp spec fn decimal_parsed(text: Seq<char>) -> Option<(int, nat)>;

/// The quotient that `rust_decimal` computes for `(m1 / 10^s1) / (m2 / 10^s2)`,
/// rounded to the precision that it keeps: mantissa and scale, or nothing
/// where the divisor is zero or the quotient overflows.
pub uninterp spec fn decimal_quotient(m1: int, s1: nat, m2: int, s2: nat) -> Option<(int, nat)>;

/// Three-way comparison by `rust_decimal::Decimal::cmp`.
///
/// Trusted: the outside comparison orders decimals by numeric value, whatever
/// their scales; both arguments must be in range, else the conversion to the
/// outside type would panic.
#[verifier::external_body]
fn compare_outside(a: &Decimal, b: &Decimal) -> (r: Ordering)
    requires
        a@.in_range(),
        b@.in_range(),
    ensures
        r == a@.compare(b@),
{
    let x = rust_decimal::Decimal::from_i128_with_scale(a.mantissa, a.scale);
    let y = rust_decimal::Decimal::from_i128_with_scale(b.mantissa, b.scale);
    x.cmp(&y)
}

/// Rendering by the `Display` impl of `rust_decimal::Decimal`.
///
/// Trusted: the text depends on mantissa and scale alone; the argument must
/// be in range.
#[verifier::external_body]
fn text_outside(d: &Decimal) -> (r: String)
    requires
        d@.in_range(),
    ensures
        r@ == decimal_text(d@.mantissa, d@.scale),
{
    rust_decimal::Decimal::from_i128_with_scale(d.mantissa, d.scale).to_string()
}

/// Parsing by `rust_decimal::Decimal::from_str_exact`, handing back the
/// mantissa and scale of what was read.
///
/// Trusted: the outcome depends on the text alone.
#[verifier::external_body]
fn parse_outside(s: &str) -> (r: Option<(i128, u32)>)
    ensures
        match r {
            Some(p) => decimal_parsed(s@) == Some((p.0 as int, p.1 as nat)),
            None => decimal_parsed(s@) is None,
        },
{
    match rust_decimal::Decimal::from_str_exact(s) {
        Ok(d) => Some((d.mantissa(), d.scale())),
        Err(_) => None,
    }
}

/// Division by `rust_decimal::Decimal::checked_div`, handing back the
/// mantissa and scale of the quotient.
///
/// Trusted: the outcome depends on the two numbers alone; both arguments
/// must be in range.
#[verifier::external_body]
fn divide_outside(a: &Decimal, b: &Decimal) -> (r: Option<(i128, u32)>)
    requires
        a@.in_range(),
        b@.in_range(),
    ensures
        match r {
            Some(q) => decimal_quotient(a@.mantissa, a@.scale, b@.mantissa, b@.scale) == Some(
                (q.0 as int, q.1 as nat),
            ),
            None => decimal_quotient(a@.mantissa, a@.scale, b@.mantissa, b@.scale) is None,
        },
{
    let x = rust_decimal::Decimal::from_i128_with_scale(a.mantissa, a.scale);
    let y = rust_decimal::Decimal::from_i128_with_scale(b.mantissa, b.scale);
    match x.checked_div(y) {
        Some(q) => Some((q.mantissa(), q.scale())),
        None => None,
    }
}

impl Decimal {
    /// The quotient as `rust_decimal` rounds it, or `None` where the divisor
    /// is zero or the quotient is out of range.
    pub fn checked_div(&self, other: &Decimal) -> (r: Option<Decimal>)
        ensures
            r is Some <==> self@.checked_div(other@) is Some,
            r is Some ==> self@.checked_div(other@) == Some(r->0@),
    {
        proof {
            use_type_invariant(self);
            use_type_invariant(other);
        }
        match divide_outside(self, other) {
            Some(q) => Decimal::try_new(q.0, q.1),
            None => None,
        }
    }

    /// The sign of the number as a number: -1, 0 or 1.
    pub fn signum(&self) -> (r: Decimal)
        ensures
            r@ == self@.signum(),
    {
        if self.mantissa < 0 {
            Decimal { mantissa: -1, scale: 0 }
        } else if self.mantissa == 0 {
            Decimal { mantissa: 0, scale: 0 }
        } else {
            Decimal { mantissa: 1, scale: 0 }
        }
    }

    /// Whether the number is below zero.
    pub fn is_negative(&self) -> (r: bool)
        ensures
            r == (self@.mantissa < 0),
    {
        self.mantissa < 0
    }

    /// Whether the number is zero.
    pub fn is_zero(&self) -> (r: bool)
        ensures
            r == (self@.mantissa == 0),
    {
        self.mantissa == 0
    }

    /// The number with the opposite sign.
    pub fn neg(&self) -> (r: Decimal)
        ensures
            r@ == self@.neg(),
    {
        proof {
            use_type_invariant(self);
        }
        Decimal { mantissa: -self.mantissa, scale: self.scale }
    }

    /// The magnitude of the number.
    pub fn abs(&self) -> (r: Decimal)
        ensures
            r@ == self@.abs(),
    {
        proof {
            use_type_invariant(self);
        }
        if self.mantissa < 0 {
            Decimal { mantissa: -self.mantissa, scale: self.scale }
        } else {
            Decimal { mantissa: self.mantissa, scale: self.scale }
        }
    }

    /// The exact product, or `None` where it is out of range.
    pub fn checked_mul(&self, other: &Decimal) -> (r: Option<Decimal>)
        ensures
            r is Some <==> self@.checked_mul(other@) is Some,
            r is Some ==> self@.checked_mul(other@) == Some(r->0@),
    {
        proof {
            use_type_invariant(self);
            use_type_invariant(other);
        }
        let scale: u32 = self.scale + other.scale;
        match self.mantissa.checked_mul(other.mantissa) {
            Some(m) => Decimal::try_new(m, scale),
            None => None,
        }
    }

    /// The exact sum at the larger of the two scales, or `None` where it
    /// cannot be formed in range.
    pub fn checked_add(&self, other: &Decimal) -> (r: Option<Decimal>)
        ensures
            r is Some <==> self@.checked_add(other@) is Some,
            r is Some ==> self@.checked_add(other@) == Some(r->0@),
    {
        proof {
            use_type_invariant(self);
            use_type_invariant(other);
        }
        let scale: u32 = if self.scale >= other.scale { self.scale } else { other.scale };
        let x: i128 = match scale_up(self.mantissa, scale - self.scale) {
            Some(x) => x,
            None => { return None; },
        };
        let y: i128 = match scale_up(other.mantissa, scale - other.scale) {
            Some(y) => y,
            None => { return None; },
        };
        Decimal::try_new(x + y, scale)
    }

    /// The exact difference at the larger of the two scales, or `None` where
    /// it cannot be formed in range.
    pub fn checked_sub(&self, other: &Decimal) -> (r: Option<Decimal>)
        ensures
            r is Some <==> self@.checked_sub(other@) is Some,
            r is Some ==> self@.checked_sub(other@) == Some(r->0@),
    {
        let minus: Decimal = other.neg();
        self.checked_add(&minus)
    }

    /// Three-way numeric comparison.
    pub fn compare_to(&self, other: &Decimal) -> (r: Ordering)
        ensures
            r == self@.compare(other@),
    {
        proof {
            use_type_invariant(self);
            use_type_invariant(other);
        }
        compare_outside(self, other)
    }

    /// Numeric equality.
    pub fn num_eq(&self, other: &Decimal) -> (r: bool)
        ensures
            r == self@.num_eq(other@),
    {
        match self.compare_to(other) {
            Ordering::Equal => true,
            _ => false,
        }
    }

    /// Numeric strict order.
    pub fn num_lt(&self, other: &Decimal) -> (r: bool)
        ensures
            r == self@.num_lt(other@),
    {
        match self.compare_to(other) {
            Ordering::Less => true,
            _ => false,
        }
    }

    /// Numeric order, reflexive.
    pub fn num_le(&self, other: &Decimal) -> (r: bool)
        ensures
            r == self@.num_le(other@),
    {
        match self.compare_to(other) {
            Ordering::Greater => false,
            _ => true,
        }
    }

    /// The number as text, as `rust_decimal` prints it.
    pub fn to_string(&self) -> (r: String)
        ensures
            r@ == decimal_text(self@.mantissa, self@.scale),
    {
        proof {
            use_type_invariant(self);
        }
        text_outside(self)
    }

    /// Reads an exact decimal number, keeping the decimal places as written.
    pub fn from_str_exact(s: &str) -> (r: Option<Decimal>)
        ensures
            match decimal_parsed(s@) {
                Some(p) => if (Dec { mantissa: p.0, scale: p.1 }).in_range() {
                    r is Some && r->0@ == (Dec { mantissa: p.0, scale: p.1 })
                } else {
                    r is None
                },
                None => r is None,
            },
    {
        match parse_outside(s) {
            Some(p) => Decimal::try_new(p.0, p.1),
            None => None,
        }
    }
}

impl Default for Decimal {
    fn default() -> (r: Decimal)
        ensures
            r@ == (Dec { mantissa: 0, scale: 0 }),
    {
        Decimal::zero()
    }
}

impl PartialEq for Decimal {
    fn eq(&self, other: &Decimal) -> (r: bool) {
        self.num_eq(other)
    }
}

impl Eq for Decimal {

}

impl vstd::std_specs::cmp::PartialEqSpecImpl for Decimal {
    open spec fn obeys_eq_spec() -> bool {
        true
    }

    open spec fn eq_spec(&self, other: &Decimal) -> bool {
        self@.num_eq(other@)
    }
}

impl PartialOrd for Decimal {
    fn partial_cmp(&self, other: &Decimal) -> (r: Option<Ordering>) {
        Some(self.compare_to(other))
    }
}

impl vstd::std_specs::cmp::PartialOrdSpecImpl for Decimal {
    open spec fn obeys_partial_cmp_spec() -> bool {
        true
    }

    open spec fn partial_cmp_spec(&self, other: &Decimal) -> Option<Ordering> {
        Some(self@.compare(other@))
    }
}

} // verus!
