//! Rounding a fraction to the nearest integer.

use vstd::arithmetic::div_mod::lemma_basic_div;
use vstd::arithmetic::div_mod::lemma_fundamental_div_mod;
use vstd::arithmetic::div_mod::lemma_mod_bound;
use vstd::prelude::*;

verus! {

/// The integer nearest to `numerator / denominator`, for a positive
/// denominator. A fraction halfway between two integers goes to the one
/// farther from zero.
pub open spec fn round_half_away(numerator: int, denominator: int) -> int {
    if numerator >= 0 {
        (2 * numerator + denominator) / (2 * denominator)
    } else {
        -((2 * (-numerator) + denominator) / (2 * denominator))
    }
}

/// `value`, or the nearer end of `[low, high]` where it lies outside.
pub open spec fn clamp_to(value: int, low: int, high: int) -> int {
    if value < low {
        low
    } else if value > high {
        high
    } else {
        value
    }
}

/// A fraction of at least `floor` rounds to at least `floor`.
pub proof fn lemma_round_at_least(numerator: int, denominator: int, floor: int)
    requires
        denominator > 0,
        floor >= 0,
        numerator >= floor * denominator,
    ensures
        round_half_away(numerator, denominator) >= floor,
{
    assert(floor * denominator >= 0) by (nonlinear_arith)
        requires
            floor >= 0,
            denominator > 0,
    ;
    let doubled = 2 * numerator + denominator;
    let quotient = doubled / (2 * denominator);
    lemma_fundamental_div_mod(doubled, 2 * denominator);
    lemma_mod_bound(doubled, 2 * denominator);
    assert(quotient >= floor) by (nonlinear_arith)
        requires
            doubled == (2 * denominator) * quotient + doubled % (2 * denominator),
            0 <= doubled % (2 * denominator) < 2 * denominator,
            doubled == 2 * numerator + denominator,
            numerator >= floor * denominator,
            denominator > 0,
    ;
}

/// A fraction within `[-bound, bound]` rounds to an integer within
/// `[-bound, bound]`.
pub proof fn lemma_round_within(numerator: int, denominator: int, bound: int)
    requires
        denominator > 0,
        bound >= 0,
        -(bound * denominator) <= numerator <= bound * denominator,
    ensures
        -bound <= round_half_away(numerator, denominator) <= bound,
{
    let size = if numerator >= 0 {
        numerator
    } else {
        -numerator
    };
    let doubled = 2 * size + denominator;
    let quotient = doubled / (2 * denominator);
    lemma_fundamental_div_mod(doubled, 2 * denominator);
    lemma_mod_bound(doubled, 2 * denominator);
    assert(0 <= quotient <= bound) by (nonlinear_arith)
        requires
            doubled == (2 * denominator) * quotient + doubled % (2 * denominator),
            0 <= doubled % (2 * denominator) < 2 * denominator,
            doubled == 2 * size + denominator,
            0 <= size <= bound * denominator,
            denominator > 0,
    ;
}

/// A fraction of at most `-depth` rounds to at most `-depth`.
pub proof fn lemma_round_at_most(numerator: int, denominator: int, depth: int)
    requires
        denominator > 0,
        depth > 0,
        numerator <= -(depth * denominator),
    ensures
        round_half_away(numerator, denominator) <= -depth,
{
    assert(depth * denominator > 0) by (nonlinear_arith)
        requires
            depth > 0,
            denominator > 0,
    ;
    lemma_round_at_least(-numerator, denominator, depth);
}

/// A fraction that is not positive does not round to a positive integer.
pub proof fn lemma_round_not_positive(numerator: int, denominator: int)
    requires
        denominator > 0,
        numerator <= 0,
    ensures
        round_half_away(numerator, denominator) <= 0,
{
    if numerator == 0 {
        lemma_basic_div(denominator, 2 * denominator);
    } else {
        lemma_round_at_least(-numerator, denominator, 0);
    }
}

} // verus!
