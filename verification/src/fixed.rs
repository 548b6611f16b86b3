//! Integer arithmetic shared by the signal path: the fixed-point unit and the
//! two rounding divisions.

use vstd::arithmetic::div_mod::{
    lemma_div_is_ordered, lemma_div_pos_is_pos, lemma_fundamental_div_mod, lemma_mod_bound,
};
use vstd::prelude::*;

verus! {

/// The fixed-point unit: a control value of `ONE` stands for 1.0.
pub const ONE: u32 = 1_000_000;

/// The magnitude of `a`.
pub open spec fn magnitude(a: int) -> int {
    if a < 0 {
        -a
    } else {
        a
    }
}

/// `a / b` rounded toward zero, for a positive `b`.
pub open spec fn trunc_div(a: int, b: int) -> int {
    if a >= 0 {
        a / b
    } else {
        -((-a) / b)
    }
}

/// `n / d` rounded to the nearest integer, halves upward, for `n >= 0` and a
/// positive `d`.
pub open spec fn round_div(n: int, d: int) -> int {
    (2 * n + d) / (2 * d)
}

/// `n / d` rounded to the nearest integer, halves away from zero, for a
/// positive `d`.
pub open spec fn round_div_signed(n: int, d: int) -> int {
    if n >= 0 {
        round_div(n, d)
    } else {
        -round_div(-n, d)
    }
}

/// A multiple of a positive number, divided by that number, is the factor.
pub proof fn lemma_div_of_multiple(q: int, b: int)
    requires
        0 < b,
    ensures
        (q * b) / b == q,
        (b * q) / b == q,
{
    assert((q * b) / b == q && (b * q) / b == q) by (nonlinear_arith)
        requires
            0 < b,
    {
    }
}

/// The product of two bounded numbers is bounded by the product of the
/// bounds, and its magnitude is the product of the magnitudes.
pub proof fn lemma_product_bound(a: int, b: int, a_max: int, b_max: int)
    requires
        magnitude(a) <= a_max,
        magnitude(b) <= b_max,
    ensures
        magnitude(a * b) == magnitude(a) * magnitude(b),
        0 <= magnitude(a * b) <= a_max * b_max,
        a >= 0 && b >= 0 ==> 0 <= a * b <= a_max * b_max,
{
    let m = magnitude(a);
    let n = magnitude(b);
    assert(magnitude(a * b) == m * n && 0 <= m * n <= a_max * b_max) by (nonlinear_arith)
        requires
            m == magnitude(a),
            n == magnitude(b),
            0 <= m <= a_max,
            0 <= n <= b_max,
    {
    }
}

/// Rounding keeps the order of nonnegative numerators.
pub proof fn lemma_round_div_is_ordered(a: int, b: int, d: int)
    requires
        0 <= a <= b,
        0 < d,
    ensures
        0 <= round_div(a, d) <= round_div(b, d),
{
    lemma_div_pos_is_pos(2 * a + d, 2 * d);
    lemma_div_is_ordered(2 * a + d, 2 * b + d, 2 * d);
}

/// Zero stays zero.
pub proof fn lemma_round_div_zero(d: int)
    requires
        0 < d,
    ensures
        round_div(0, d) == 0,
        round_div_signed(0, d) == 0,
{
    assert((2 * 0 + d) / (2 * d) == 0) by (nonlinear_arith)
        requires
            0 < d,
    {
    }
}

/// Rounding away from zero treats a number and its negative alike.
pub proof fn lemma_round_div_signed_magnitude(n: int, d: int)
    requires
        0 < d,
    ensures
        magnitude(round_div_signed(n, d)) == round_div(magnitude(n), d),
        n >= 0 ==> round_div_signed(n, d) >= 0,
        n <= 0 ==> round_div_signed(n, d) <= 0,
{
    lemma_round_div_is_ordered(0, magnitude(n), d);
    lemma_round_div_zero(d);
}

/// Rounding toward zero treats a number and its negative alike, and never
/// gives more than the exact quotient does.
pub proof fn lemma_trunc_div_magnitude(a: int, b: int)
    requires
        0 < b,
    ensures
        magnitude(trunc_div(a, b)) == magnitude(a) / b,
        magnitude(trunc_div(a, b)) * b <= magnitude(a),
        a >= 0 ==> trunc_div(a, b) >= 0,
        a <= 0 ==> trunc_div(a, b) <= 0,
{
    let m = magnitude(a);
    assert(0 <= m / b && (m / b) * b <= m) by (nonlinear_arith)
        requires
            0 <= m,
            0 < b,
    {
    }
}

/// A number that is no more than `bound` times the divisor is no more than
/// `bound` after the division.
pub proof fn lemma_trunc_div_bound(a: int, b: int, bound: int)
    requires
        0 < b,
        0 <= bound,
        magnitude(a) <= bound * b,
    ensures
        magnitude(trunc_div(a, b)) <= bound,
{
    lemma_trunc_div_magnitude(a, b);
    let m = magnitude(a);
    assert(m / b <= bound) by (nonlinear_arith)
        requires
            0 <= m <= bound * b,
            0 < b,
    {
    }
}

/// Rounding toward zero moves a quotient by less than one: the quotient
/// times the divisor is less than the divisor away from the number.
pub proof fn lemma_trunc_div_remainder(a: int, b: int)
    requires
        0 < b,
    ensures
        magnitude(a - trunc_div(a, b) * b) < b,
{
    let m = magnitude(a);
    lemma_fundamental_div_mod(m, b);
    lemma_mod_bound(m, b);
    assert((m / b) * b == b * (m / b) && (-(m / b)) * b == -(b * (m / b))) by (nonlinear_arith);
}

/// Two numbers that are at least twice the divisor apart have different
/// quotients.
pub proof fn lemma_trunc_div_apart(a: int, b: int, d: int)
    requires
        0 < d,
        magnitude(a - b) >= 2 * d,
    ensures
        trunc_div(a, d) != trunc_div(b, d),
{
    lemma_trunc_div_remainder(a, d);
    lemma_trunc_div_remainder(b, d);
}

/// A multiple of the divisor is divided without a remainder.
pub proof fn lemma_trunc_div_exact(q: int, b: int)
    requires
        0 < b,
    ensures
        trunc_div(q * b, b) == q,
{
    lemma_div_of_multiple(q, b);
    lemma_div_of_multiple(-q, b);
    assert((-q) * b == -(q * b) && (q >= 0 <==> q * b >= 0)) by (nonlinear_arith)
        requires
            0 < b,
    {
    }
}

} // verus!
