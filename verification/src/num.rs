use vstd::prelude::*;
use vstd::arithmetic::div_mod::{
    lemma_div_nonincreasing, lemma_div_pos_is_pos, lemma_fundamental_div_mod,
};

verus! {

/// Truncating (round-toward-zero) division on mathematical integers.
///
/// The spec-level `/` on `int` is Euclidean; the geometry in this crate is
/// defined with truncating quotients, so both the spec and the executable
/// division go through this definition.
pub open spec fn tdiv(x: int, y: int) -> int {
    if x >= 0 && y >= 0 {
        x / y
    } else if x < 0 && y >= 0 {
        -((-x) / y)
    } else if x >= 0 && y < 0 {
        -(x / (-y))
    } else {
        (-x) / (-y)
    }
}

/// Negating both operands leaves a truncating quotient unchanged.
pub proof fn lemma_tdiv_neg_both(x: int, y: int)
    requires
        y != 0,
    ensures
        tdiv(-x, -y) == tdiv(x, y),
{
}

/// A truncating quotient never exceeds the dividend in magnitude.
pub proof fn lemma_tdiv_magnitude(x: int, y: int)
    requires
        y != 0,
    ensures
        -vstd::math::abs(x) <= tdiv(x, y) <= vstd::math::abs(x),
{
    let xa = vstd::math::abs(x) as int;
    let ya = vstd::math::abs(y) as int;
    lemma_div_nonincreasing(xa, ya);
    lemma_div_pos_is_pos(xa, ya);
}

/// A product of bounded factors is bounded by the product of the bounds.
pub proof fn lemma_mul_bound(x: int, y: int, bx: int, by: int)
    requires
        -bx <= x <= bx,
        -by <= y <= by,
        0 <= bx,
        0 <= by,
    ensures
        -(bx * by) <= x * y <= bx * by,
{
    assert(-(bx * by) <= x * y <= bx * by) by (nonlinear_arith)
        requires
            -bx <= x <= bx,
            -by <= y <= by,
            0 <= bx,
            0 <= by,
    {}
}

/// Truncating division on `i128`, computed through unsigned division.
pub fn div_trunc(x: i128, y: i128) -> (r: i128)
    requires
        y != 0,
        x != i128::MIN,
        y != i128::MIN,
    ensures
        r == tdiv(x as int, y as int),
{
    proof {
        lemma_tdiv_magnitude(x as int, y as int);
    }
    let xa: u128 = if x < 0 {
        (-x) as u128
    } else {
        x as u128
    };
    let ya: u128 = if y < 0 {
        (-y) as u128
    } else {
        y as u128
    };
    let q: u128 = xa / ya;
    proof {
        lemma_div_nonincreasing(xa as int, ya as int);
        lemma_div_pos_is_pos(xa as int, ya as int);
    }
    if (x < 0) == (y < 0) {
        q as i128
    } else {
        -(q as i128)
    }
}

/// Dividing a bounded non-negative value by a positive divisor keeps it
/// within the quotient of the bounds.
pub proof fn lemma_div_bound(x: int, b: int, d: int)
    requires
        0 <= x <= b,
        d >= 1,
    ensures
        0 <= x / d <= b / d,
{
    vstd::arithmetic::div_mod::lemma_div_is_ordered(x, b, d);
    lemma_div_pos_is_pos(x, d);
}

/// The remainder of a division by a positive divisor is within `[0, d)`.
pub proof fn lemma_mod_range(x: int, d: int)
    requires
        d > 0,
    ensures
        0 <= x % d < d,
{
    lemma_fundamental_div_mod(x, d);
}

} // verus!
