//! Saturating fixed-point arithmetic.
//!
//! A [`Scalar`] is an `i64` that counts millionths. Every operation computes
//! the exact result over the integers, rounds it toward zero to a whole number
//! of millionths and clamps it to the range of `i64`. None of them can
//! overflow, and only division by zero has no answer.

use vstd::prelude::*;

verus! {

/// A fixed-point number: the `i64` counts millionths.
pub type Scalar = i64;

/// The raw value of the number one.
pub const SCALE: Scalar = 1_000_000;

/// The `i64` nearest to `x`.
pub open spec fn saturate(x: int) -> i64 {
    if x < i64::MIN {
        i64::MIN
    } else if x > i64::MAX {
        i64::MAX
    } else {
        x as i64
    }
}

/// The absolute value of `x`.
pub open spec fn magnitude(x: int) -> int {
    if x < 0 {
        -x
    } else {
        x
    }
}

/// `n / d` rounded toward zero. Meaningful for `d != 0`.
pub open spec fn truncated(n: int, d: int) -> int {
    if (n < 0) == (d < 0) {
        magnitude(n) / magnitude(d)
    } else {
        -(magnitude(n) / magnitude(d))
    }
}

/// `a + b`, clamped.
pub open spec fn spec_sat_add(a: Scalar, b: Scalar) -> Scalar {
    saturate(a + b)
}

/// `a - b`, clamped.
pub open spec fn spec_sat_sub(a: Scalar, b: Scalar) -> Scalar {
    saturate(a - b)
}

/// `-a`, clamped: the negation of `i64::MIN` is `i64::MAX`.
pub open spec fn spec_sat_neg(a: Scalar) -> Scalar {
    saturate(-a)
}

/// The product of two fixed-point numbers: `a * b / SCALE`, rounded toward
/// zero and clamped.
pub open spec fn spec_fixed_mul(a: Scalar, b: Scalar) -> Scalar {
    saturate(truncated(a * b, SCALE as int))
}

/// The quotient of two fixed-point numbers: `a * SCALE / b`, rounded toward
/// zero and clamped. Meaningful for `b != 0`.
pub open spec fn spec_fixed_div(a: Scalar, b: Scalar) -> Scalar {
    saturate(truncated(a * SCALE, b as int))
}

/// How far apart `a` and `b` are, clamped.
pub open spec fn spec_distance(a: Scalar, b: Scalar) -> Scalar {
    saturate(magnitude(b - a))
}

/// The larger of `a` and `b`.
pub open spec fn spec_larger(a: Scalar, b: Scalar) -> Scalar {
    if a >= b {
        a
    } else {
        b
    }
}

/// The smaller of `a` and `b`.
pub open spec fn spec_smaller(a: Scalar, b: Scalar) -> Scalar {
    if a <= b {
        a
    } else {
        b
    }
}

/// The `i64` nearest to `wide`.
pub fn clamp(wide: i128) -> (r: i64)
    ensures
        r == saturate(wide as int),
{
    if wide < i64::MIN as i128 {
        i64::MIN
    } else if wide > i64::MAX as i128 {
        i64::MAX
    } else {
        wide as i64
    }
}

/// Adds two numbers, stopping at the ends of the range.
#[verifier::when_used_as_spec(spec_sat_add)]
pub fn sat_add(a: Scalar, b: Scalar) -> (r: Scalar)
    ensures
        r == spec_sat_add(a, b),
{
    clamp(a as i128 + b as i128)
}

/// Subtracts `b` from `a`, stopping at the ends of the range.
#[verifier::when_used_as_spec(spec_sat_sub)]
pub fn sat_sub(a: Scalar, b: Scalar) -> (r: Scalar)
    ensures
        r == spec_sat_sub(a, b),
{
    clamp(a as i128 - b as i128)
}

/// Negates `a`, stopping at the upper end of the range.
#[verifier::when_used_as_spec(spec_sat_neg)]
pub fn sat_neg(a: Scalar) -> (r: Scalar)
    ensures
        r == spec_sat_neg(a),
{
    clamp(-(a as i128))
}

/// Multiplies two fixed-point numbers.
#[verifier::when_used_as_spec(spec_fixed_mul)]
pub fn fixed_mul(a: Scalar, b: Scalar) -> (r: Scalar)
    ensures
        r == spec_fixed_mul(a, b),
{
    proof {
        lemma_product_fits(a, b);
    }
    let wide: i128 = a as i128 * b as i128;
    clamp(wide / 1_000_000i128)
}

/// Divides `a` by `b` as fixed-point numbers. There is no quotient by zero.
pub fn fixed_div(a: Scalar, b: Scalar) -> (r: Option<Scalar>)
    ensures
        b == 0 <==> r is None,
        b != 0 ==> r == Some(spec_fixed_div(a, b)),
{
    if b == 0 {
        None
    } else {
        let wide: i128 = a as i128 * 1_000_000i128;
        let divisor: i128 = b as i128;
        let q: i128 = if divisor > 0 {
            wide / divisor
        } else {
            -(wide / (-divisor))
        };
        Some(clamp(q))
    }
}

/// The distance between two numbers on the line.
#[verifier::when_used_as_spec(spec_distance)]
pub fn distance(a: Scalar, b: Scalar) -> (r: Scalar)
    ensures
        r == spec_distance(a, b),
{
    let gap: i128 = b as i128 - a as i128;
    if gap < 0 {
        clamp(-gap)
    } else {
        clamp(gap)
    }
}

/// The larger of two numbers.
#[verifier::when_used_as_spec(spec_larger)]
pub fn larger(a: Scalar, b: Scalar) -> (r: Scalar)
    ensures
        r == spec_larger(a, b),
{
    if a >= b {
        a
    } else {
        b
    }
}

/// The exact product of two `i64` values lies within `2^126` of zero.
pub proof fn lemma_product_fits(a: i64, b: i64)
    ensures
        -0x4000_0000_0000_0000_0000_0000_0000_0000 <= a * b
            <= 0x4000_0000_0000_0000_0000_0000_0000_0000,
{
    assert(-0x4000_0000_0000_0000_0000_0000_0000_0000 <= a * b
        <= 0x4000_0000_0000_0000_0000_0000_0000_0000) by (nonlinear_arith)
        requires
            -0x8000_0000_0000_0000 <= a <= 0x7fff_ffff_ffff_ffff,
            -0x8000_0000_0000_0000 <= b <= 0x7fff_ffff_ffff_ffff,
    ;
}

/// Rounding toward zero loses less than one divisor and never crosses zero.
pub proof fn lemma_truncated_bounds(n: int, d: int)
    requires
        d > 0,
    ensures
        n >= 0 ==> 0 <= truncated(n, d) * d <= n < truncated(n, d) * d + d,
        n <= 0 ==> truncated(n, d) * d - d < n <= truncated(n, d) * d <= 0,
{
    let m = magnitude(n);
    vstd::arithmetic::div_mod::lemma_fundamental_div_mod(m, d);
    vstd::arithmetic::div_mod::lemma_mod_bound(m, d);
    let q = m / d;
    assert(d * q == q * d) by (nonlinear_arith);
    assert((-q) * d == -(q * d)) by (nonlinear_arith);
}

/// Rounding toward zero, with a divisor of either sign: the rounded quotient
/// times the divisor lies between zero and the dividend, less than one divisor
/// short of it.
pub proof fn lemma_truncated_error(n: int, d: int)
    requires
        d != 0,
    ensures
        magnitude(truncated(n, d) * d - n) < magnitude(d),
        n >= 0 ==> 0 <= truncated(n, d) * d <= n,
        n <= 0 ==> n <= truncated(n, d) * d <= 0,
{
    let m = magnitude(d);
    lemma_truncated_bounds(n, m);
    let q = magnitude(n) / m;
    assert((-q) * d == -(q * d)) by (nonlinear_arith);
    assert(q * (-d) == -(q * d)) by (nonlinear_arith);
    assert((-q) * (-d) == q * d) by (nonlinear_arith);
}

/// A product that fits the range is the exact product rounded toward zero:
/// it is less than one millionth away from it.
pub proof fn lemma_fixed_mul_error(a: Scalar, b: Scalar)
    requires
        i64::MIN <= truncated(a * b, SCALE as int) <= i64::MAX,
    ensures
        -SCALE < spec_fixed_mul(a, b) * SCALE - a * b < SCALE,
        a * b >= 0 ==> 0 <= spec_fixed_mul(a, b) * SCALE <= a * b,
        a * b <= 0 ==> a * b <= spec_fixed_mul(a, b) * SCALE <= 0,
{
    lemma_truncated_bounds(a * b, SCALE as int);
}

/// A quotient that fits the range is the exact quotient rounded toward zero:
/// times the divisor it is less than one divisor away from the dividend.
pub proof fn lemma_fixed_div_error(a: Scalar, b: Scalar)
    requires
        b != 0,
        i64::MIN <= truncated(a * SCALE, b as int) <= i64::MAX,
    ensures
        magnitude(spec_fixed_div(a, b) * b - a * SCALE) < magnitude(b as int),
        a >= 0 ==> 0 <= spec_fixed_div(a, b) * b <= a * SCALE,
        a <= 0 ==> a * SCALE <= spec_fixed_div(a, b) * b <= 0,
{
    lemma_truncated_error(a * SCALE, b as int);
}

/// Multiplying by one changes nothing.
pub proof fn lemma_fixed_mul_one(a: Scalar)
    ensures
        spec_fixed_mul(a, SCALE) == a,
        spec_fixed_mul(SCALE, a) == a,
{
    lemma_truncated_bounds(a * SCALE, SCALE as int);
    lemma_truncated_bounds(SCALE * a, SCALE as int);
}

/// Multiplying by minus one negates.
pub proof fn lemma_fixed_mul_minus_one(a: Scalar)
    ensures
        spec_fixed_mul(a, (-SCALE) as Scalar) == spec_sat_neg(a),
        spec_fixed_mul((-SCALE) as Scalar, a) == spec_sat_neg(a),
{
    let minus_one = (-SCALE) as Scalar;
    assert(a * minus_one == -(a * SCALE)) by (nonlinear_arith)
        requires
            minus_one == -SCALE,
    ;
    assert(minus_one * a == -(a * SCALE)) by (nonlinear_arith)
        requires
            minus_one == -SCALE,
    ;
    lemma_truncated_bounds(-(a * SCALE), SCALE as int);
}

/// Multiplying by zero gives zero.
pub proof fn lemma_fixed_mul_zero(a: Scalar)
    ensures
        spec_fixed_mul(a, 0) == 0,
        spec_fixed_mul(0, a) == 0,
{
    assert(a * 0 == 0);
    assert(0 * a == 0);
}

/// Multiplying by a factor between zero and one brings a number closer to
/// zero without crossing it, and the result is within one millionth of the
/// exact product.
pub proof fn lemma_fixed_mul_fraction(a: Scalar, factor: Scalar)
    requires
        0 <= factor <= SCALE,
    ensures
        a >= 0 ==> 0 <= spec_fixed_mul(a, factor) <= a,
        a <= 0 ==> a <= spec_fixed_mul(a, factor) <= 0,
        spec_fixed_mul(a, factor) == truncated(a * factor, SCALE as int),
        -SCALE < spec_fixed_mul(a, factor) * SCALE - a * factor < SCALE,
{
    let n = a * factor;
    let t = truncated(n, SCALE as int);
    lemma_truncated_bounds(n, SCALE as int);
    if a >= 0 {
        assert(0 <= n <= a * SCALE) by (nonlinear_arith)
            requires
                n == a * factor,
                a >= 0,
                0 <= factor <= SCALE,
        ;
    } else {
        assert(a * SCALE <= n <= 0) by (nonlinear_arith)
            requires
                n == a * factor,
                a < 0,
                0 <= factor <= SCALE,
        ;
    }
}

} // verus!
