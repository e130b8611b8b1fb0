//! Wide integers back to 128 bits, and the size of the full range position.

use vstd::prelude::*;

use crate::math::{self, Dec27, U256, decimal_sqrt, u256_from_u128, u256_checked_mul, u256_to_u128};
use crate::state::{PriceFactor, Weight};

verus! {

/// The value of a 256-bit integer known to fit in 128 bits.
pub fn uint256_to_uint128(uint256: &U256) -> (r: u128)
    requires
        uint256@ <= u128::MAX,
    ensures
        r == uint256@,
{
    u256_to_u128(uint256).unwrap()
}

/// `floor(a * b / 10^27)` when it stays below `2^256`.
pub open spec fn prec_mul_checked(a: nat, b: nat) -> Option<nat> {
    if math::prec_mul_value(a, b) < math::u256_limit() {
        Some(math::prec_mul_value(a, b))
    } else {
        None
    }
}

/// The square root of a price factor, as a 27-decimal number's atomics.
pub open spec fn sqrt_factor(k: nat) -> nat {
    math::decimal_sqrt_value(k) * 1_000_000_000
}

/// The amount of token0 `x0` the full range position gets out of `x` so that
/// its liquidity is the weight `w` of the liquidity of the full range and base
/// positions together, for a base factor `k`:
/// `x0 = w * sqrt(k) * x / (sqrt(k) - 1 + w)`, every step rounded down to 27
/// decimals. Zero when `w` is zero; `None` when a step overflows, `sqrt(k)` is
/// below one or the denominator is zero.
pub open spec fn x0_value(k: nat, w: nat, x: nat) -> Option<nat> {
    if w == 0 {
        Some(0)
    } else {
        let s = sqrt_factor(k);
        match prec_mul_checked(w, s) {
            None => None,
            Some(n1) => match prec_mul_checked(n1, x) {
                None => None,
                Some(n) => if s < math::prec_one() || s - math::prec_one() + w >= math::u256_limit()
                    || s - math::prec_one() + w == 0 {
                    None
                } else {
                    let d = (s - math::prec_one() + w) as nat;
                    if math::prec_div_value(n, d) < math::u256_limit() {
                        Some(math::prec_div_value(n, d))
                    } else {
                        None
                    }
                },
            },
        }
    }
}

/// The full range position never takes more than the amount it is cut from:
/// with a weight of at most one, `x0 <= x`.
pub proof fn lemma_x0_within_amount(k: nat, w: nat, x: nat)
    requires
        w <= math::prec_one(),
        x0_value(k, w, x) is Some,
    ensures
        x0_value(k, w, x).unwrap() <= x,
{
    if w != 0 {
        let one: nat = math::prec_one();
        let s = sqrt_factor(k);
        let n1: nat = w * s / one;
        let n: nat = n1 * x / one;
        let d: nat = (s - one + w) as nat;
        crate::query::lemma_floor_div_brackets(w * s, one);
        crate::query::lemma_floor_div_brackets(n1 * x, one);
        crate::query::lemma_floor_div_brackets(n * one, d);
        assert(w * s <= one * d) by (nonlinear_arith)
            requires
                w <= one,
                s >= one,
                d == s - one + w,
        ;
        assert(n1 * one <= one * d) by (nonlinear_arith)
            requires
                n1 * one <= w * s,
                w * s <= one * d,
        ;
        assert(n1 <= d) by (nonlinear_arith)
            requires
                n1 * one <= one * d,
                one > 0,
        ;
        assert(n * one <= d * x) by (nonlinear_arith)
            requires
                n * one <= n1 * x,
                n1 <= d,
        ;
        let q: nat = n * one / d;
        assert(q <= x) by (nonlinear_arith)
            requires
                q * d <= n * one,
                n * one <= d * x,
                d > 0,
        ;
    }
}

/// The amount of token0 `x0` to put in the full range position, out of an
/// amount `x` of token0 for the full range and base positions: see [`x0_value`].
pub fn calc_x0(k: &PriceFactor, w: &Weight, x: Dec27) -> (r: Dec27)
    requires
        x0_value(k.0 as nat, w.0@, x@) is Some,
    ensures
        r@ == x0_value(k.0 as nat, w.0@, x@).unwrap(),
{
    if w.is_zero() {
        return Dec27::zero();
    }
    let root = decimal_sqrt(k.0);
    proof {
        assert(math::decimal_sqrt_value(k.0 as nat) <= u128::MAX);
        assert(sqrt_factor(k.0 as nat) < math::u256_limit());
    }
    let sqrt_k = Dec27 { atomics: u256_checked_mul(&u256_from_u128(root), &u256_from_u128(1_000_000_000)).unwrap() };
    let numerator = w.0.checked_mul(&sqrt_k).unwrap();
    let numerator = numerator.checked_mul(&x).unwrap();
    let denominator = sqrt_k.checked_sub(&Dec27::one()).unwrap().checked_add(&w.0).unwrap();
    numerator.checked_div(&denominator).unwrap()
}

/// The amount of token0 for the full range position as [`x0_value`] gives it,
/// or `None` where that is undefined (a step overflows, `sqrt(k)` is below
/// one, or the denominator is zero).
pub fn checked_calc_x0(k: &PriceFactor, w: &Weight, x: Dec27) -> (r: Option<Dec27>)
    ensures
        match r {
            Some(v) => x0_value(k.0 as nat, w.0@, x@) == Some(v@),
            None => x0_value(k.0 as nat, w.0@, x@) is None,
        },
{
    if w.is_zero() {
        return Some(Dec27::zero());
    }
    let root = decimal_sqrt(k.0);
    proof {
        assert(math::decimal_sqrt_value(k.0 as nat) <= u128::MAX);
        assert(sqrt_factor(k.0 as nat) < math::u256_limit());
    }
    let sqrt_k = Dec27 { atomics: u256_checked_mul(&u256_from_u128(root), &u256_from_u128(1_000_000_000)).unwrap() };
    let numerator = w.0.checked_mul(&sqrt_k)?;
    let numerator = numerator.checked_mul(&x)?;
    let one = Dec27::one();
    if !one.le(&sqrt_k) {
        return None;
    }
    let denominator = sqrt_k.checked_sub(&one).unwrap().checked_add(&w.0)?;
    if denominator.is_zero() {
        return None;
    }
    numerator.checked_div(&denominator)
}

} // verus!
