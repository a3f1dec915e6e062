//! Fixed-point plane geometry: points, coordinate bounds, and the exact
//! truncating division used by the spline evaluator.

use vstd::prelude::*;
use vstd::arithmetic::div_mod::{lemma_div_is_ordered, lemma_div_multiples_vanish, lemma_div_pos_is_pos};

verus! {

/// Subunits per world unit: a coordinate of 1500 is 1.5 world units.
pub const SCALE: i64 = 1000;

/// Largest coordinate magnitude the tessellators accept; keeps every
/// intermediate product of the cubic evaluation inside `i128`.
pub const MAX_COORD: i64 = 1_000_000_000_000;

/// A position in the fixed-point plane.
#[derive(Clone, Copy, PartialEq, Eq, Structural, Debug)]
pub struct Point {
    pub x: i64,
    pub y: i64,
}

pub open spec fn coord_in_range(c: int) -> bool {
    -MAX_COORD <= c <= MAX_COORD
}

pub open spec fn point_in_range(p: Point) -> bool {
    coord_in_range(p.x as int) && coord_in_range(p.y as int)
}

/// Division rounding toward zero, the rounding the tessellators use to bring
/// an exact numerator back to the fixed-point grid.
pub open spec fn trunc_div(a: int, b: int) -> int
    recommends
        b > 0,
{
    if a >= 0 {
        a / b
    } else {
        -((-a) / b)
    }
}

/// Truncating division is exact on multiples.
pub proof fn lemma_trunc_div_exact(q: int, b: int)
    requires
        b > 0,
    ensures
        trunc_div(q * b, b) == q,
{
    lemma_div_multiples_vanish(q, b);
    assert(q * b == b * q) by (nonlinear_arith);
    if q < 0 {
        lemma_div_multiples_vanish(-q, b);
        assert(-(q * b) == b * (-q)) by (nonlinear_arith);
    }
}

/// A numerator bounded by `m * b` divides down to a quotient bounded by `m`.
pub proof fn lemma_trunc_div_bound(a: int, b: int, m: int)
    requires
        b > 0,
        m >= 0,
        -(m * b) <= a <= m * b,
    ensures
        -m <= trunc_div(a, b) <= m,
{
    lemma_div_multiples_vanish(m, b);
    assert(m * b == b * m) by (nonlinear_arith);
    if a >= 0 {
        lemma_div_pos_is_pos(a, b);
        lemma_div_is_ordered(a, m * b, b);
    } else {
        lemma_div_pos_is_pos(-a, b);
        lemma_div_is_ordered(-a, m * b, b);
    }
}

/// Interval bound for a product, used to discharge overflow checks in the
/// cubic evaluations.
pub proof fn lemma_mul_bound(x: int, y: int, xb: int, yb: int)
    by (nonlinear_arith)
    requires
        0 <= xb,
        0 <= yb,
        -xb <= x <= xb,
        -yb <= y <= yb,
    ensures
        -(xb * yb) <= x * y <= xb * yb,
{
}

/// Runtime division rounding toward zero, exactly `trunc_div`.
pub(crate) fn div_trunc(a: i128, b: i128) -> (r: i128)
    requires
        b > 0,
        a > i128::MIN,
    ensures
        r as int == trunc_div(a as int, b as int),
{
    if a >= 0 {
        let q: u128 = (a as u128) / (b as u128);
        q as i128
    } else {
        let neg: u128 = (-a) as u128;
        let q: u128 = neg / (b as u128);
        proof {
            lemma_div_pos_is_pos(neg as int, b as int);
            lemma_div_is_ordered(neg as int, i128::MAX as int, b as int);
            assert(i128::MAX as int / (b as int) <= i128::MAX as int) by {
                vstd::arithmetic::div_mod::lemma_div_nonincreasing(i128::MAX as int, b as int);
            }
        }
        -(q as i128)
    }
}

} // verus!
