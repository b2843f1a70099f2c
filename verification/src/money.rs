//! Integer money arithmetic: amounts are whole cents, and every rounding in the
//! crate goes through the one helper defined here.

use vstd::prelude::*;

verus! {

/// The integer nearest to the quotient `n / d`; a quotient that lies exactly
/// halfway between two integers goes to the one farther from zero.
pub open spec fn round_div(n: int, d: int) -> int
    recommends
        d > 0,
{
    if n >= 0 {
        (n + n + d) / (d + d)
    } else {
        -((d - n - n) / (d + d))
    }
}

/// `round_div` is odd: rounding commutes with negation.
pub proof fn lemma_round_div_negate(n: int, d: int)
    requires
        d > 0,
    ensures
        round_div(-n, d) == -round_div(n, d),
{
    if n == 0 {
        assert((0 + 0 + d) / (d + d) == 0) by (nonlinear_arith)
            requires
                d > 0,
        ;
    }
}

/// The rounded quotient is a nearest integer: it is off by at most half a unit.
pub proof fn lemma_round_div_is_nearest(n: int, d: int)
    requires
        d > 0,
    ensures
        -d <= 2 * (round_div(n, d) * d - n) <= d,
{
    if n >= 0 {
        let q = (n + n + d) / (d + d);
        assert(0 <= (2 * n + d) - q * (2 * d) < 2 * d) by (nonlinear_arith)
            requires
                q == (n + n + d) / (d + d),
                d > 0,
        ;
        assert(q * (2 * d) == 2 * (q * d)) by (nonlinear_arith);
    } else {
        let m = -n;
        let q = (m + m + d) / (d + d);
        assert(0 <= (2 * m + d) - q * (2 * d) < 2 * d) by (nonlinear_arith)
            requires
                q == (m + m + d) / (d + d),
                d > 0,
        ;
        assert(q * (2 * d) == 2 * (q * d)) by (nonlinear_arith);
        assert((-q) * d == -(q * d)) by (nonlinear_arith);
    }
}

/// Rounding never moves a quotient past the dividend: for `d >= 1` the result
/// lies between zero and `n`.
pub proof fn lemma_round_div_bounded(n: int, d: int)
    requires
        d > 0,
    ensures
        n >= 0 ==> 0 <= round_div(n, d) <= n,
        n <= 0 ==> n <= round_div(n, d) <= 0,
{
    let m = if n >= 0 { n } else { -n };
    let q = (m + m + d) / (d + d);
    assert(0 <= q <= m) by (nonlinear_arith)
        requires
            q == (m + m + d) / (d + d),
            d > 0,
            m >= 0,
    ;
}

/// Rounding is monotonic in the dividend.
pub proof fn lemma_round_div_monotonic(a: int, b: int, d: int)
    requires
        d > 0,
        a <= b,
    ensures
        round_div(a, d) <= round_div(b, d),
{
    lemma_round_div_bounded(a, d);
    lemma_round_div_bounded(b, d);
    if a >= 0 {
        assert((a + a + d) / (d + d) <= (b + b + d) / (d + d)) by (nonlinear_arith)
            requires
                d > 0,
                a <= b,
        ;
    } else if b < 0 {
        assert((d - b - b) / (d + d) <= (d - a - a) / (d + d)) by (nonlinear_arith)
            requires
                d > 0,
                a <= b,
        ;
    }
}

/// A multiple of the divisor needs no rounding.
pub proof fn lemma_round_div_exact(n: int, d: int)
    requires
        d > 0,
    ensures
        round_div(n * d, d) == n,
{
    let m = if n >= 0 { n } else { -n };
    assert(m * d >= 0) by (nonlinear_arith)
        requires
            m >= 0,
            d > 0,
    ;
    assert(2 * (m * d) + d == m * (2 * d) + d) by (nonlinear_arith);
    vstd::arithmetic::div_mod::lemma_fundamental_div_mod_converse(
        2 * (m * d) + d,
        2 * d,
        m,
        d,
    );
    if n >= 0 {
        assert(n * d == m * d);
    } else {
        assert(n * d == -(m * d)) by (nonlinear_arith)
            requires
                m == -n,
        ;
        if n * d >= 0 {
            assert(m * d == 0);
            assert(m == 0) by (nonlinear_arith)
                requires
                    m * d == 0,
                    d > 0,
                    m >= 0,
            ;
        }
    }
}

/// The rounded mean of numbers that are at most `bound` is at most `bound`.
pub proof fn lemma_round_div_mean_bounded(sum: int, count: int, bound: int)
    requires
        count > 0,
        0 <= sum <= count * bound,
    ensures
        0 <= round_div(sum, count) <= bound,
{
    assert(bound * count == count * bound) by (nonlinear_arith);
    lemma_round_div_bounded(sum, count);
    lemma_round_div_monotonic(sum, bound * count, count);
    lemma_round_div_exact(bound, count);
}

/// Rounds `n / d` to the nearest integer, ties away from zero.
pub fn round_to_nearest(n: i64, d: i64) -> (r: i64)
    requires
        d > 0,
    ensures
        r == round_div(n as int, d as int),
{
    proof {
        lemma_round_div_bounded(n as int, d as int);
    }
    let wide_n: i128 = n as i128;
    let wide_d: i128 = d as i128;
    if n >= 0 {
        let q: i128 = (2 * wide_n + wide_d) / (2 * wide_d);
        q as i64
    } else {
        let q: i128 = (2 * (-wide_n) + wide_d) / (2 * wide_d);
        (-q) as i64
    }
}

} // verus!
