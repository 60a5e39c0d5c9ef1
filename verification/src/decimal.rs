//! Exact decimal amounts (prices, crores, times-subscribed), as the
//! `rust_decimal` crate represents them: a sign, a 96-bit magnitude and a
//! power-of-ten scale from 0 to 28.

use vstd::prelude::*;

use crate::text::is_digit;

verus! {

/// A decimal number `(-1)^negative * mantissa / 10^scale`.
#[derive(Debug, Clone, Copy, PartialEq, Eq, Structural)]
pub struct Decimal {
    pub negative: bool,
    pub mantissa: u128,
    pub scale: u32,
}

pub open spec fn pow10(n: nat) -> nat
    decreases n,
{
    if n == 0 { 1 } else { 10 * pow10((n - 1) as nat) }
}

/// 2^96: one past the largest magnitude.
pub open spec fn mantissa_bound() -> int {
    79228162514264337593543950336
}

impl Decimal {
    /// Magnitude below 2^96 and scale at most 28.
    pub open spec fn wf(self) -> bool {
        self.mantissa < mantissa_bound() && self.scale <= 28
    }

    /// The signed mantissa.
    pub open spec fn signed(self) -> int {
        if self.negative { -(self.mantissa as int) } else { self.mantissa as int }
    }
}

/// Whether `a` and `b` denote the same number.
pub open spec fn value_eq(a: Decimal, b: Decimal) -> bool {
    a.signed() * pow10(b.scale as nat) == b.signed() * pow10(a.scale as nat)
}

/// Whether `a` denotes a smaller number than `b`.
pub open spec fn value_lt(a: Decimal, b: Decimal) -> bool {
    a.signed() * pow10(b.scale as nat) < b.signed() * pow10(a.scale as nat)
}

/// The integer `n` as a decimal of scale 0.
pub open spec fn int_decimal(n: int) -> Decimal {
    Decimal { negative: n < 0, mantissa: (if n < 0 { -n } else { n }) as u128, scale: 0 }
}

pub fn from_u64(n: u64) -> (d: Decimal)
    ensures
        d == int_decimal(n as int),
        d.wf(),
{
    Decimal { negative: false, mantissa: n as u128, scale: 0 }
}

pub fn from_i64(n: i64) -> (d: Decimal)
    ensures
        d == int_decimal(n as int),
        d.wf(),
{
    if n < 0 {
        let m: u128 = (0i128 - (n as i128)) as u128;
        Decimal { negative: true, mantissa: m, scale: 0 }
    } else {
        Decimal { negative: false, mantissa: n as u128, scale: 0 }
    }
}

// ---------------------------------------------------------------------------
// Text of plain decimal numbers
// ---------------------------------------------------------------------------

/// Number of `.` characters in `s`.
pub open spec fn dot_count(s: Seq<char>) -> nat
    decreases s.len(),
{
    if s.len() == 0 {
        0
    } else {
        dot_count(s.drop_last()) + (if s.last() == '.' { 1nat } else { 0nat })
    }
}

/// The number spelled by the digits of `s`, dots skipped.
pub open spec fn digits_value(s: Seq<char>) -> nat
    decreases s.len(),
{
    if s.len() == 0 {
        0
    } else if s.last() == '.' {
        digits_value(s.drop_last())
    } else {
        (digits_value(s.drop_last()) * 10 + ((s.last() as int) - ('0' as int))) as nat
    }
}

/// Number of digits after the dot of `s`.
pub open spec fn fraction_len(s: Seq<char>) -> nat
    decreases s.len(),
{
    if s.len() == 0 || s.last() == '.' {
        0
    } else if dot_count(s.drop_last()) > 0 {
        fraction_len(s.drop_last()) + 1
    } else {
        0
    }
}

/// Digits and dots, starting with a digit, shorter than 18 characters: the
/// texts that `rust_decimal` parses without rounding.
pub open spec fn plain_decimal_text(s: Seq<char>) -> bool {
    &&& 0 < s.len() < 18
    &&& is_digit(s[0])
    &&& forall|i: int| 0 <= i < s.len() ==> is_digit(#[trigger] s[i]) || s[i] == '.'
}

/// What a plain decimal text parses to: its digits over ten to the number of
/// digits after the dot, or nothing when it has two dots or more.
pub open spec fn plain_decimal_value(s: Seq<char>) -> Option<Decimal> {
    if dot_count(s) <= 1 {
        Some(
            Decimal {
                negative: false,
                mantissa: digits_value(s) as u128,
                scale: fraction_len(s) as u32,
            },
        )
    } else {
        None
    }
}

/// What `rust_decimal::Decimal::from_str_radix(s, 10)` gives.
pub uninterp spec fn decimal_from_str_radix(s: Seq<char>) -> Option<Decimal>;

/// What `rust_decimal::Decimal::from_str_exact(s)` gives.
pub uninterp spec fn decimal_from_str_exact(s: Seq<char>) -> Option<Decimal>;

/// `rust_decimal::Decimal::from_str_radix(s, 10)`: accepts an optional sign,
/// digits with `_` separators and one optional dot; rounds texts longer than
/// its precision. Stated exactly for plain decimal texts.
#[verifier::external_body]
pub(crate) fn parse_decimal(s: &str) -> (r: Option<Decimal>)
    ensures
        r == decimal_from_str_radix(s@),
        plain_decimal_text(s@) ==> r == plain_decimal_value(s@),
        r matches Some(d) ==> d.wf(),
{
    rust_decimal::Decimal::from_str_radix(s, 10).ok().map(
        |d| Decimal { negative: d.is_sign_negative(), mantissa: d.mantissa().unsigned_abs(), scale: d.scale() },
    )
}

/// `rust_decimal::Decimal::from_str_exact(s)`: like `from_str_radix(s, 10)`
/// but refusing texts that would need rounding. Stated exactly for plain
/// decimal texts.
#[verifier::external_body]
pub(crate) fn parse_decimal_exact(s: &str) -> (r: Option<Decimal>)
    ensures
        r == decimal_from_str_exact(s@),
        plain_decimal_text(s@) ==> r == plain_decimal_value(s@),
        r matches Some(d) ==> d.wf(),
{
    rust_decimal::Decimal::from_str_exact(s).ok().map(
        |d| Decimal { negative: d.is_sign_negative(), mantissa: d.mantissa().unsigned_abs(), scale: d.scale() },
    )
}

// ---------------------------------------------------------------------------
// Arithmetic
// ---------------------------------------------------------------------------

/// What `rust_decimal::Decimal::checked_mul(a, b)` gives.
pub uninterp spec fn decimal_product(a: Decimal, b: Decimal) -> Option<Decimal>;

/// The exact product, when it fits without rescaling.
pub open spec fn exact_product(a: Decimal, b: Decimal) -> Decimal {
    if a.mantissa == 0 || b.mantissa == 0 {
        Decimal { negative: false, mantissa: 0, scale: 0 }
    } else {
        Decimal {
            negative: a.negative != b.negative,
            mantissa: (a.mantissa * b.mantissa) as u128,
            scale: (a.scale + b.scale) as u32,
        }
    }
}

/// `rust_decimal::Decimal::checked_mul`: `None` on overflow; exact when
/// the product of the magnitudes is below 2^96 and the scales sum to at
/// most 28 (zero when either factor is zero).
#[verifier::external_body]
pub(crate) fn checked_mul(a: Decimal, b: Decimal) -> (r: Option<Decimal>)
    requires
        a.wf(),
        b.wf(),
    ensures
        r == decimal_product(a, b),
        a.mantissa * b.mantissa < mantissa_bound() && a.scale + b.scale <= 28 ==> r == Some(
            exact_product(a, b),
        ),
        r matches Some(d) ==> d.wf(),
{
    let to = |d: Decimal| {
        rust_decimal::Decimal::from_parts(
            d.mantissa as u32,
            (d.mantissa >> 32) as u32,
            (d.mantissa >> 64) as u32,
            d.negative,
            d.scale,
        )
    };
    to(a).checked_mul(to(b)).map(
        |d| Decimal { negative: d.is_sign_negative(), mantissa: d.mantissa().unsigned_abs(), scale: d.scale() },
    )
}

/// What `rust_decimal::Decimal::checked_div(a, b)` gives.
pub uninterp spec fn decimal_quotient(a: Decimal, b: Decimal) -> Option<Decimal>;

/// `rust_decimal::Decimal::checked_div`: `None` on a zero divisor or
/// overflow; never `None` for a non-zero integer divisor; exact when an
/// integer divisor divides the magnitude.
#[verifier::external_body]
pub(crate) fn checked_div(a: Decimal, b: Decimal) -> (r: Option<Decimal>)
    requires
        a.wf(),
        b.wf(),
    ensures
        r == decimal_quotient(a, b),
        b.scale == 0 && b.mantissa > 0 ==> r is Some,
        b.scale == 0 && b.mantissa > 0 && a.mantissa % b.mantissa == 0 ==> r == Some(
            if a.mantissa == 0 {
                Decimal { negative: false, mantissa: 0, scale: 0 }
            } else {
                Decimal {
                    negative: a.negative != b.negative,
                    mantissa: (a.mantissa / b.mantissa) as u128,
                    scale: a.scale,
                }
            },
        ),
        r matches Some(d) ==> d.wf(),
{
    let to = |d: Decimal| {
        rust_decimal::Decimal::from_parts(
            d.mantissa as u32,
            (d.mantissa >> 32) as u32,
            (d.mantissa >> 64) as u32,
            d.negative,
            d.scale,
        )
    };
    to(a).checked_div(to(b)).map(
        |d| Decimal { negative: d.is_sign_negative(), mantissa: d.mantissa().unsigned_abs(), scale: d.scale() },
    )
}

/// Round-half-to-even of `m / 10^k`.
pub open spec fn round_half_even(m: nat, k: nat) -> nat {
    let p = pow10(k);
    let q = m / p;
    let r = m % p;
    if 2 * r > p || (2 * r == p && q % 2 == 1) { q + 1 } else { q }
}

/// `d` as `rust_decimal` holds it: a zero magnitude is never negative.
pub open spec fn canonical(d: Decimal) -> Decimal {
    Decimal { negative: d.negative && d.mantissa != 0, mantissa: d.mantissa, scale: d.scale }
}

/// `d` rounded to `dp` fractional digits, ties to even (a result of zero
/// carries no sign).
pub open spec fn rounded_dp(d: Decimal, dp: u32) -> Decimal {
    if d.scale <= dp {
        canonical(d)
    } else {
        canonical(
            Decimal {
                negative: d.negative,
                mantissa: round_half_even(d.mantissa as nat, (d.scale - dp) as nat) as u128,
                scale: dp,
            },
        )
    }
}

/// `rust_decimal::Decimal::round_dp`: banker's rounding to `dp` fractional
/// digits; unchanged when the scale is at most `dp`; zero comes out
/// without a sign.
#[verifier::external_body]
pub(crate) fn round_dp(d: Decimal, dp: u32) -> (r: Decimal)
    requires
        d.wf(),
        dp <= 28,
    ensures
        r == rounded_dp(d, dp),
{
    let x = rust_decimal::Decimal::from_parts(
        d.mantissa as u32,
        (d.mantissa >> 32) as u32,
        (d.mantissa >> 64) as u32,
        d.negative,
        d.scale,
    );
    let y = x.round_dp(dp);
    Decimal { negative: y.is_sign_negative(), mantissa: y.mantissa().unsigned_abs(), scale: y.scale() }
}

/// Three-way value comparison: -1, 0 or 1.
pub open spec fn value_order(a: Decimal, b: Decimal) -> int {
    if value_lt(a, b) {
        -1
    } else if value_eq(a, b) {
        0
    } else {
        1
    }
}

/// `rust_decimal::Decimal`'s `Ord::cmp`, as -1, 0 or 1: numeric order of
/// the values, whatever their scales.
#[verifier::external_body]
pub(crate) fn compare(a: Decimal, b: Decimal) -> (r: i8)
    requires
        a.wf(),
        b.wf(),
    ensures
        r as int == value_order(a, b),
{
    let to = |d: Decimal| {
        rust_decimal::Decimal::from_parts(
            d.mantissa as u32,
            (d.mantissa >> 32) as u32,
            (d.mantissa >> 64) as u32,
            d.negative,
            d.scale,
        )
    };
    let (x, y) = (to(a), to(b));
    if x < y { -1 } else if x == y { 0 } else { 1 }
}

proof fn lemma_scaled_le_trans(x: int, y: int, z: int, px: int, py: int, pz: int)
    by (nonlinear_arith)
    requires
        px > 0,
        py > 0,
        pz > 0,
        x * py <= y * px,
        y * pz <= z * py,
    ensures
        x * pz <= z * px,
{
    assert(x * py * pz <= y * px * pz);
    assert(y * pz * px <= z * py * px);
    assert(x * pz * py <= z * px * py);
}

/// Every power of ten is positive.
proof fn lemma_pow10_positive(n: nat)
    ensures
        pow10(n) > 0,
    decreases n,
{
    if n > 0 {
        lemma_pow10_positive((n - 1) as nat);
    }
}

/// Value order is antisymmetric and transitive, whatever the scales.
pub proof fn lemma_value_order_laws(a: Decimal, b: Decimal, c: Decimal)
    ensures
        value_order(a, b) == -value_order(b, a),
        -1 <= value_order(a, b) <= 1,
        value_order(a, b) <= 0 && value_order(b, c) <= 0 ==> value_order(a, c) <= 0,
{
    lemma_pow10_positive(a.scale as nat);
    lemma_pow10_positive(b.scale as nat);
    lemma_pow10_positive(c.scale as nat);
    if value_order(a, b) <= 0 && value_order(b, c) <= 0 {
        lemma_scaled_le_trans(
            a.signed(),
            b.signed(),
            c.signed(),
            pow10(a.scale as nat) as int,
            pow10(b.scale as nat) as int,
            pow10(c.scale as nat) as int,
        );
    }
}

} // verus!
