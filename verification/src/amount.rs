//! Decimal amounts of money.
//!
//! An [`Amount`] is the pair of integers that makes up a `rust_decimal::Decimal`:
//! a signed 96-bit `mantissa` and a `scale` between 0 and 28. It stands for the
//! number `mantissa / 10^scale`. Sums, differences, comparisons and rounding are
//! those of `rust_decimal`; this module states what they give and decides, before
//! a sum or difference is formed, whether it can be had without rounding.

use vstd::arithmetic::div_mod::{lemma_div_pos_is_pos, lemma_fundamental_div_mod, lemma_mod_bound};
use vstd::prelude::*;

verus! {

/// Largest magnitude of a mantissa: `2^96 - 1`.
pub const MAX_MANTISSA: i128 = 79_228_162_514_264_337_593_543_950_335;

/// Largest scale: an amount has at most 28 digits after the decimal point.
pub const MAX_SCALE: u32 = 28;

/// `10^n`.
pub open spec fn pow10(n: nat) -> int
    decreases n,
{
    if n == 0 {
        1
    } else {
        10 * pow10((n - 1) as nat)
    }
}

/// `10^(a + b) == 10^a * 10^b`.
pub proof fn lemma_pow10_add(a: nat, b: nat)
    ensures
        pow10(a + b) == pow10(a) * pow10(b),
    decreases a,
{
    if a > 0 {
        lemma_pow10_add((a - 1) as nat, b);
        assert(10 * (pow10((a - 1) as nat) * pow10(b)) == (10 * pow10((a - 1) as nat)) * pow10(b))
            by (nonlinear_arith);
    }
}

/// Powers of ten are positive and grow with the exponent.
pub proof fn lemma_pow10_monotonic(a: nat, b: nat)
    requires
        a <= b,
    ensures
        1 <= pow10(a) <= pow10(b),
    decreases b,
{
    if b > a {
        lemma_pow10_monotonic(a, (b - 1) as nat);
    } else if a > 0 {
        lemma_pow10_monotonic((a - 1) as nat, (a - 1) as nat);
    }
}

/// `10^28`, the largest power of ten that a scale calls for.
pub proof fn lemma_pow10_28()
    ensures
        pow10(28) == 10_000_000_000_000_000_000_000_000_000int,
{
    reveal_with_fuel(pow10, 30);
}

/// A decimal number `mantissa / 10^scale`. Two amounts are `==` when they are
/// written alike, mantissa and scale: `1.0` and `1.00` stand for one number and
/// are not `==`.
#[derive(Clone, Copy, Debug, PartialEq, Eq)]
pub struct Amount {
    pub mantissa: i128,
    pub scale: u32,
}

impl Amount {
    /// The mantissa has at most 96 bits and the scale is at most 28.
    pub open spec fn wf(self) -> bool {
        &&& in_range(self.mantissa as int)
        &&& self.scale <= MAX_SCALE
    }

    /// The mantissa of this amount once it is written with `scale` digits after
    /// the decimal point, for a `scale` that is not below its own.
    pub open spec fn aligned(self, scale: nat) -> int {
        self.mantissa * pow10((scale - self.scale) as nat)
    }

    /// The scale at which two amounts are added, subtracted or compared: the
    /// larger of the two.
    pub open spec fn joint_scale(self, other: Amount) -> nat {
        if self.scale >= other.scale {
            self.scale as nat
        } else {
            other.scale as nat
        }
    }

    /// Whether both amounts keep a 96-bit mantissa at their joint scale.
    pub open spec fn aligns_with(self, other: Amount) -> bool {
        let s = self.joint_scale(other);
        in_range(self.aligned(s)) && in_range(other.aligned(s))
    }

    /// Whether `self + other` can be formed without loss: an operand is zero, or
    /// both operands and their sum keep a 96-bit mantissa at the joint scale.
    pub open spec fn add_fits(self, other: Amount) -> bool {
        let s = self.joint_scale(other);
        ||| self.mantissa == 0
        ||| other.mantissa == 0
        ||| (self.aligns_with(other) && in_range(self.aligned(s) + other.aligned(s)))
    }

    /// `self + other` where it fits: a zero operand gives the other operand as
    /// it is written; otherwise the mantissas are added at the joint scale.
    pub open spec fn spec_add(self, other: Amount) -> Amount {
        let s = self.joint_scale(other);
        if self.mantissa == 0 {
            other
        } else if other.mantissa == 0 {
            self
        } else {
            Amount { mantissa: (self.aligned(s) + other.aligned(s)) as i128, scale: s as u32 }
        }
    }

    /// Whether `self - other` can be formed without loss: an operand is zero, or
    /// both operands and their difference keep a 96-bit mantissa at the joint
    /// scale.
    pub open spec fn sub_fits(self, other: Amount) -> bool {
        let s = self.joint_scale(other);
        ||| self.mantissa == 0
        ||| other.mantissa == 0
        ||| (self.aligns_with(other) && in_range(self.aligned(s) - other.aligned(s)))
    }

    /// `self - other` where it fits: from zero, the negated `other` at its own
    /// scale; less zero, `self` as it is written; otherwise the difference of the
    /// mantissas at the joint scale.
    pub open spec fn spec_sub(self, other: Amount) -> Amount {
        let s = self.joint_scale(other);
        if self.mantissa == 0 {
            Amount { mantissa: (-other.mantissa) as i128, scale: other.scale }
        } else if other.mantissa == 0 {
            self
        } else {
            Amount { mantissa: (self.aligned(s) - other.aligned(s)) as i128, scale: s as u32 }
        }
    }

    /// This amount with at most `dp` digits after the decimal point. Digits
    /// beyond them are rounded off to the nearest value, a tie going to the even
    /// neighbour.
    pub open spec fn spec_round_dp(self, dp: u32) -> Amount {
        if self.scale <= dp {
            self
        } else {
            Amount {
                mantissa: round_half_even(self.mantissa as int, (self.scale - dp) as nat) as i128,
                scale: dp,
            }
        }
    }

    /// Builds `mantissa / 10^scale`, or nothing where the pair is out of range.
    pub fn new(mantissa: i128, scale: u32) -> (r: Option<Amount>)
        ensures
            r == (if in_range(mantissa as int) && scale <= MAX_SCALE {
                Some(Amount { mantissa, scale })
            } else {
                None
            }),
    {
        if -MAX_MANTISSA <= mantissa && mantissa <= MAX_MANTISSA && scale <= MAX_SCALE {
            Some(Amount { mantissa, scale })
        } else {
            None
        }
    }

    /// Zero, written without decimals.
    pub fn zero() -> (r: Amount)
        ensures
            r == (Amount { mantissa: 0, scale: 0 }),
    {
        Amount { mantissa: 0, scale: 0 }
    }

    /// Whether `self < other` as numbers.
    pub fn lt(self, other: Amount) -> (r: bool)
        requires
            self.wf(),
            other.wf(),
        ensures
            r == (self@ < other@),
    {
        decimal_lt(self, other)
    }

    /// Whether `self <= other` as numbers.
    pub fn le(self, other: Amount) -> (r: bool)
        requires
            self.wf(),
            other.wf(),
        ensures
            r == (self@ <= other@),
    {
        decimal_le(self, other)
    }

    /// The mantissa at `scale`, where it keeps 96 bits.
    fn align_to(self, scale: u32) -> (r: Option<i128>)
        requires
            self.wf(),
            self.scale <= scale <= MAX_SCALE,
        ensures
            r == (if in_range(self.aligned(scale as nat)) {
                Some(self.aligned(scale as nat) as i128)
            } else {
                None
            }),
    {
        let p = pow10_exec(scale - self.scale);
        match self.mantissa.checked_mul(p) {
            Some(v) => {
                if -MAX_MANTISSA <= v && v <= MAX_MANTISSA {
                    Some(v)
                } else {
                    None
                }
            },
            None => None,
        }
    }

    /// Decides [`Amount::add_fits`].
    pub fn can_add(self, other: Amount) -> (r: bool)
        requires
            self.wf(),
            other.wf(),
        ensures
            r == self.add_fits(other),
    {
        if self.mantissa == 0 || other.mantissa == 0 {
            return true;
        }
        let s = if self.scale >= other.scale { self.scale } else { other.scale };
        match (self.align_to(s), other.align_to(s)) {
            (Some(x), Some(y)) => -MAX_MANTISSA <= x + y && x + y <= MAX_MANTISSA,
            _ => false,
        }
    }

    /// Decides [`Amount::sub_fits`].
    pub fn can_sub(self, other: Amount) -> (r: bool)
        requires
            self.wf(),
            other.wf(),
        ensures
            r == self.sub_fits(other),
    {
        if self.mantissa == 0 || other.mantissa == 0 {
            return true;
        }
        let s = if self.scale >= other.scale { self.scale } else { other.scale };
        match (self.align_to(s), other.align_to(s)) {
            (Some(x), Some(y)) => -MAX_MANTISSA <= x - y && x - y <= MAX_MANTISSA,
            _ => false,
        }
    }

    /// `self + other`, or nothing where the sum does not fit.
    pub fn checked_add(self, other: Amount) -> (r: Option<Amount>)
        requires
            self.wf(),
            other.wf(),
        ensures
            r == (if self.add_fits(other) {
                Some(self.spec_add(other))
            } else {
                None
            }),
            r matches Some(sum) ==> sum.wf() && sum@ == self@ + other@,
    {
        proof {
            if self.add_fits(other) {
                lemma_add_exact(self, other);
            }
        }
        if self.can_add(other) {
            Some(decimal_add(self, other))
        } else {
            None
        }
    }

    /// `self - other`, or nothing where the difference does not fit.
    pub fn checked_sub(self, other: Amount) -> (r: Option<Amount>)
        requires
            self.wf(),
            other.wf(),
        ensures
            r == (if self.sub_fits(other) {
                Some(self.spec_sub(other))
            } else {
                None
            }),
            r matches Some(difference) ==> difference.wf() && difference@ == self@ - other@,
    {
        proof {
            if self.sub_fits(other) {
                lemma_sub_exact(self, other);
            }
        }
        if self.can_sub(other) {
            Some(decimal_sub(self, other))
        } else {
            None
        }
    }

    /// This amount rounded to at most `dp` digits after the decimal point.
    pub fn round_dp(self, dp: u32) -> (r: Amount)
        requires
            self.wf(),
        ensures
            r == self.spec_round_dp(dp),
            r.wf(),
    {
        proof {
            lemma_round_dp(self, dp);
        }
        decimal_round_dp(self, dp)
    }
}

/// The value of an amount as a whole number of units of `10^-28`.
impl View for Amount {
    type V = int;

    open spec fn view(&self) -> int {
        self.aligned(MAX_SCALE as nat)
    }
}

/// Whether `m` is a 96-bit mantissa.
pub open spec fn in_range(m: int) -> bool {
    -MAX_MANTISSA <= m <= MAX_MANTISSA
}

/// `m / 10^k` rounded to the nearest integer, a tie going to the even one.
pub open spec fn round_half_even(m: int, k: nat) -> int {
    let n = if m < 0 { -m } else { m };
    let q = n / pow10(k);
    let rest = n % pow10(k);
    let up = 2 * rest > pow10(k) || (2 * rest == pow10(k) && q % 2 == 1);
    let rounded = if up { q + 1 } else { q };
    if m < 0 { -rounded } else { rounded }
}

/// An amount is negative, zero or positive as its mantissa is.
pub proof fn lemma_sign(a: Amount)
    requires
        a.wf(),
    ensures
        (a@ < 0) == (a.mantissa < 0),
        (a@ == 0) == (a.mantissa == 0),
        (a@ > 0) == (a.mantissa > 0),
{
    let p = pow10((MAX_SCALE - a.scale) as nat);
    lemma_pow10_monotonic(0, (MAX_SCALE - a.scale) as nat);
    assert(a.mantissa < 0 ==> a.mantissa * p < 0) by (nonlinear_arith)
        requires
            p >= 1,
    ;
    assert(a.mantissa > 0 ==> a.mantissa * p > 0) by (nonlinear_arith)
        requires
            p >= 1,
    ;
}

/// Writing an amount at a larger scale does not change its value.
pub proof fn lemma_aligned_value(a: Amount, scale: nat)
    requires
        a.scale <= scale <= MAX_SCALE,
    ensures
        a.aligned(scale) * pow10((MAX_SCALE - scale) as nat) == a@,
{
    let up = (scale - a.scale) as nat;
    let rest = (MAX_SCALE - scale) as nat;
    lemma_pow10_add(up, rest);
    assert(a.mantissa * pow10(up) * pow10(rest) == a.mantissa * (pow10(up) * pow10(rest)))
        by (nonlinear_arith);
}

/// Where a sum fits, it is a well-formed amount that stands for exactly the sum
/// of the two numbers.
pub proof fn lemma_add_exact(a: Amount, b: Amount)
    requires
        a.wf(),
        b.wf(),
        a.add_fits(b),
    ensures
        a.spec_add(b).wf(),
        a.spec_add(b)@ == a@ + b@,
{
    if a.mantissa != 0 && b.mantissa != 0 {
        let s = a.joint_scale(b);
        let rest = pow10((MAX_SCALE - s) as nat);
        lemma_aligned_value(a, s);
        lemma_aligned_value(b, s);
        assert((a.aligned(s) + b.aligned(s)) * rest == a.aligned(s) * rest + b.aligned(s) * rest)
            by (nonlinear_arith);
    }
}

/// Where a difference fits, it is a well-formed amount that stands for exactly
/// the difference of the two numbers.
pub proof fn lemma_sub_exact(a: Amount, b: Amount)
    requires
        a.wf(),
        b.wf(),
        a.sub_fits(b),
    ensures
        a.spec_sub(b).wf(),
        a.spec_sub(b)@ == a@ - b@,
{
    if a.mantissa == 0 {
        let p = pow10((MAX_SCALE - b.scale) as nat);
        assert((-b.mantissa) * p == -(b.mantissa * p)) by (nonlinear_arith);
    } else if b.mantissa != 0 {
        let s = a.joint_scale(b);
        let rest = pow10((MAX_SCALE - s) as nat);
        lemma_aligned_value(a, s);
        lemma_aligned_value(b, s);
        assert((a.aligned(s) - b.aligned(s)) * rest == a.aligned(s) * rest - b.aligned(s) * rest)
            by (nonlinear_arith);
    }
}

/// Rounding `m / 10^k` gives an integer no larger in magnitude than `m`, of the
/// sign of `m` or zero, and within half a unit of `m / 10^k`.
pub proof fn lemma_round_half_even(m: int, k: nat)
    requires
        k >= 1,
    ensures
        m >= 0 ==> 0 <= round_half_even(m, k) <= m,
        m <= 0 ==> m <= round_half_even(m, k) <= 0,
        -pow10(k) <= 2 * (round_half_even(m, k) * pow10(k) - m) <= pow10(k),
{
    let p = pow10(k);
    let n = if m < 0 { -m } else { m };
    let q = n / p;
    let rest = n % p;
    lemma_pow10_monotonic(1, k);
    assert(pow10(1) == 10) by {
        reveal_with_fuel(pow10, 2);
    }
    lemma_fundamental_div_mod(n, p);
    lemma_mod_bound(n, p);
    lemma_div_pos_is_pos(n, p);
    assert(q <= p * q) by (nonlinear_arith)
        requires
            q >= 0,
            p >= 1,
    ;
    assert((q + 1) * p == p * q + p) by (nonlinear_arith);
    assert(q * p == p * q) by (nonlinear_arith);
    assert((-q) * p == -(p * q)) by (nonlinear_arith);
    assert((-(q + 1)) * p == -(p * q + p)) by (nonlinear_arith);
}

/// A rounded amount is a well-formed amount within half a unit of the last
/// digit kept: half of `10^-dp`.
pub proof fn lemma_round_dp(a: Amount, dp: u32)
    requires
        a.wf(),
    ensures
        a.spec_round_dp(dp).wf(),
        a.spec_round_dp(dp).scale <= a.scale,
        dp <= MAX_SCALE ==> -pow10((MAX_SCALE - dp) as nat) <= 2 * (a.spec_round_dp(dp)@ - a@) <= pow10(
            (MAX_SCALE - dp) as nat,
        ),
{
    if a.scale > dp {
        let k = (a.scale - dp) as nat;
        let rest = (MAX_SCALE - a.scale) as nat;
        let rounded = round_half_even(a.mantissa as int, k);
        let unit = pow10(k);
        let fine = pow10(rest);
        let gap = rounded * unit - a.mantissa;
        lemma_round_half_even(a.mantissa as int, k);
        lemma_pow10_add(k, rest);
        lemma_pow10_monotonic(0, rest);
        assert(rounded * (unit * fine) - a.mantissa * fine == gap * fine) by (nonlinear_arith)
            requires
                gap == rounded * unit - a.mantissa,
        ;
        assert(-(unit * fine) <= 2 * (gap * fine) <= unit * fine) by (nonlinear_arith)
            requires
                -unit <= 2 * gap <= unit,
                fine >= 1,
        ;
    } else {
        lemma_pow10_monotonic(0, (MAX_SCALE - dp) as nat);
    }
}

/// `10^k` for a `k` that a scale allows.
fn pow10_exec(k: u32) -> (p: i128)
    requires
        k <= MAX_SCALE,
    ensures
        p == pow10(k as nat),
        1 <= p <= 10_000_000_000_000_000_000_000_000_000,
{
    let mut p: i128 = 1;
    let mut i: u32 = 0;
    while i < k
        invariant
            i <= k <= MAX_SCALE,
            p == pow10(i as nat),
        decreases k - i,
    {
        proof {
            lemma_pow10_monotonic((i + 1) as nat, 28);
            lemma_pow10_28();
        }
        p = p * 10;
        i = i + 1;
    }
    proof {
        lemma_pow10_monotonic(k as nat, 28);
        lemma_pow10_28();
    }
    p
}

/// Calls `+` of `rust_decimal::Decimal` (its `Add::add`). Not proved here, but
/// taken from the crate: on decimals with `a.add_fits(b)` it gives
/// `a.spec_add(b)`. That is, where an operand is zero it hands the other operand
/// back unchanged; otherwise it brings the operand of the smaller scale up to the
/// larger scale, adds the mantissas with their signs and keeps that scale. It
/// rounds, or panics on overflow, only where an operand at that scale or the sum
/// needs more than 96 bits, which `requires` rules out.
#[verifier::external_body]
pub(crate) fn decimal_add(a: Amount, b: Amount) -> (r: Amount)
    requires
        a.wf(),
        b.wf(),
        a.add_fits(b),
    ensures
        r == a.spec_add(b),
{
    let sum = rust_decimal::Decimal::from_i128_with_scale(a.mantissa, a.scale)
        + rust_decimal::Decimal::from_i128_with_scale(b.mantissa, b.scale);
    Amount { mantissa: sum.mantissa(), scale: sum.scale() }
}

/// Calls `-` of `rust_decimal::Decimal` (its `Sub::sub`). Not proved here, but
/// taken from the crate: on decimals with `a.sub_fits(b)` it gives
/// `a.spec_sub(b)`. That is, zero less `b` is `b` with its sign turned, at the
/// scale of `b`, and `a` less zero is `a` unchanged; otherwise it brings the
/// operand of the smaller scale up to the larger scale, subtracts the mantissas
/// with their signs and keeps that scale. It rounds, or panics on overflow, only
/// where an operand at that scale or the difference needs more than 96 bits,
/// which `requires` rules out.
#[verifier::external_body]
pub(crate) fn decimal_sub(a: Amount, b: Amount) -> (r: Amount)
    requires
        a.wf(),
        b.wf(),
        a.sub_fits(b),
    ensures
        r == a.spec_sub(b),
{
    let difference = rust_decimal::Decimal::from_i128_with_scale(a.mantissa, a.scale)
        - rust_decimal::Decimal::from_i128_with_scale(b.mantissa, b.scale);
    Amount { mantissa: difference.mantissa(), scale: difference.scale() }
}

/// Calls `<` of `rust_decimal::Decimal` (its `PartialOrd::lt`). Not proved here,
/// but taken from the crate: decimals are ordered by the numbers they stand for.
/// Zero is zero at any scale, a negative number is below a positive one, and two
/// numbers of one sign are compared once the scales are level.
#[verifier::external_body]
fn decimal_lt(a: Amount, b: Amount) -> (r: bool)
    requires
        a.wf(),
        b.wf(),
    ensures
        r == (a@ < b@),
{
    rust_decimal::Decimal::from_i128_with_scale(a.mantissa, a.scale)
        < rust_decimal::Decimal::from_i128_with_scale(b.mantissa, b.scale)
}

/// Calls `<=` of `rust_decimal::Decimal` (its `PartialOrd::le`). Not proved
/// here, but taken from the crate: decimals are ordered by the numbers they stand
/// for, as for `<`.
#[verifier::external_body]
fn decimal_le(a: Amount, b: Amount) -> (r: bool)
    requires
        a.wf(),
        b.wf(),
    ensures
        r == (a@ <= b@),
{
    rust_decimal::Decimal::from_i128_with_scale(a.mantissa, a.scale)
        <= rust_decimal::Decimal::from_i128_with_scale(b.mantissa, b.scale)
}

/// Calls `Decimal::round_dp` of `rust_decimal`. Not proved here, but taken from
/// the crate: a decimal with no more than `dp` digits after the point comes back
/// unchanged; any other is cut to `dp` digits, and its last digit goes up by one
/// where the digits cut off are more than half a unit, or exactly half and the
/// last digit is odd. The sign stays.
#[verifier::external_body]
fn decimal_round_dp(a: Amount, dp: u32) -> (r: Amount)
    requires
        a.wf(),
    ensures
        r == a.spec_round_dp(dp),
{
    let rounded = rust_decimal::Decimal::from_i128_with_scale(a.mantissa, a.scale).round_dp(dp);
    Amount { mantissa: rounded.mantissa(), scale: rounded.scale() }
}

} // verus!
