//! What the vault holds and what a deposit is worth.

use vstd::prelude::*;

use crate::constants::MIN_LIQUIDITY;
use crate::math::{self, U256, u256_checked_add, u256_checked_div, u256_checked_mul, u256_checked_sub, u256_from_u128, u256_le, u256_to_u128};
use crate::msg::{CalcSharesAndUsableAmountsResponse, PositionBalancesWithFeesResponse, VaultBalancesResponse};
use crate::state::{DexCoin, FeesInfo, FundsInfo};
use crate::text::{self, u128_parse};

verus! {

/// The smaller of two numbers.
pub open spec fn min_nat(a: nat, b: nat) -> nat {
    if a <= b { a } else { b }
}

/// The larger of two numbers.
pub open spec fn max_nat(a: nat, b: nat) -> nat {
    if a >= b { a } else { b }
}

/// For a vault holding `total0` and `total1` (both nonzero), the deposit
/// `(in0, in1)` measured in the vault's proportion: `min(in0 * total1, in1 * total0)`.
pub open spec fn cross(in0: nat, in1: nat, total0: nat, total1: nat) -> nat {
    min_nat(in0 * total1, in1 * total0)
}

/// Shares minted and amounts used by a deposit of `(in0, in1)` into a vault
/// holding `(total0, total1)` with `supply` shares:
/// - the first deposit mints `max(in0, in1) - MIN_LIQUIDITY` and uses everything;
/// - a vault holding only one token takes only that token, at its price in shares;
/// - otherwise the deposit is cut to the vault's proportion (`cross`), the used
///   amounts are `cross` divided by each total rounded up, and the shares are
///   `cross * supply / total0 / total1` rounded down.
pub open spec fn shares_and_usable(in0: nat, in1: nat, total0: nat, total1: nat, supply: nat) -> (nat, nat, nat) {
    if supply == 0 {
        ((max_nat(in0, in1) - MIN_LIQUIDITY) as nat, in0, in1)
    } else if total0 == 0 {
        (in1 * supply / total1, 0, in1)
    } else if total1 == 0 {
        (in0 * supply / total0, in0, 0)
    } else {
        let c = cross(in0, in1, total0, total1);
        if c == 0 {
            (0, 0, 0)
        } else {
            (c * supply / total0 / total1, ((c - 1) as nat / total1 + 1) as nat, ((c - 1) as nat / total0 + 1) as nat)
        }
    }
}

/// The inputs on which the share calculation completes: an empty vault holds
/// nothing and the deposit exceeds [`MIN_LIQUIDITY`] in one token; a vault
/// with shares holds some token; the products and the shares stay within
/// their integer widths.
pub open spec fn shares_computable(in0: nat, in1: nat, total0: nat, total1: nat, supply: nat) -> bool {
    if supply == 0 {
        total0 == 0 && total1 == 0 && max_nat(in0, in1) >= MIN_LIQUIDITY
    } else if total0 == 0 {
        total1 != 0 && in1 * supply / total1 <= u128::MAX
    } else if total1 == 0 {
        in0 * supply / total0 <= u128::MAX
    } else {
        let c = cross(in0, in1, total0, total1);
        c * supply < math::u256_limit() && c * supply / total0 / total1 <= u128::MAX
    }
}

/// A product of two 128-bit numbers fits in 256 bits.
pub proof fn lemma_u128_product_fits(a: u128, b: u128)
    ensures
        a * b < math::u256_limit(),
{
    assert(a * b <= (u128::MAX as int) * (u128::MAX as int)) by (nonlinear_arith)
        requires
            a <= u128::MAX,
            b <= u128::MAX,
    ;
}

/// `(c - 1) / d + 1 <= a` when `0 < c <= a * d`: rounding `c / d` up stays within `a`.
proof fn lemma_ceil_div_le(c: nat, a: nat, d: nat)
    requires
        0 < c <= a * d,
        d > 0,
    ensures
        ((c - 1) as nat) / d + 1 <= a,
{
    assert(((c - 1) as nat) / d < a) by {
        vstd::arithmetic::div_mod::lemma_div_is_ordered((c - 1) as int, (a * d - 1) as int, d as int);
        vstd::arithmetic::div_mod::lemma_fundamental_div_mod((a * d - 1) as int, d as int);
        vstd::arithmetic::div_mod::lemma_mod_bound((a * d - 1) as int, d as int);
        let q = (a * d - 1) / (d as int);
        assert(q < a) by (nonlinear_arith)
            requires
                a * d - 1 == d * q + (a * d - 1) % (d as int),
                0 <= (a * d - 1) % (d as int),
                d > 0,
        ;
    }
}

/// Rounding `c / d` up gives at least `c / d`: `((c - 1) / d + 1) * d >= c` for `c > 0`.
proof fn lemma_ceil_div_ge(c: nat, d: nat)
    requires
        c > 0,
        d > 0,
    ensures
        (((c - 1) as nat) / d + 1) * d >= c,
{
    vstd::arithmetic::div_mod::lemma_fundamental_div_mod((c - 1) as int, d as int);
    vstd::arithmetic::div_mod::lemma_mod_bound((c - 1) as int, d as int);
    let q = ((c - 1) as nat) / d;
    assert((q + 1) * d >= c) by (nonlinear_arith)
        requires
            c - 1 == d * q + (c - 1) % (d as int),
            (c - 1) % (d as int) < d,
    ;
}

/// Rounding down never exceeds: `(x / a / b) * a * b <= x`.
proof fn lemma_floor_div2_le(x: nat, a: nat, b: nat)
    requires
        a > 0,
        b > 0,
    ensures
        (x / a / b) * a * b <= x,
{
    vstd::arithmetic::div_mod::lemma_fundamental_div_mod(x as int, a as int);
    vstd::arithmetic::div_mod::lemma_fundamental_div_mod((x / a) as int, b as int);
    let q1 = x / a;
    let q2 = q1 / b;
    assert(q2 * a * b <= x) by (nonlinear_arith)
        requires
            x == a * q1 + x % a,
            q1 == b * q2 + q1 % b,
            x % a >= 0,
            q1 % b >= 0,
            a > 0,
    ;
}

/// Shares for the amounts `(input_amount0, input_amount1)`, and how much of
/// each the vault can use, for a vault holding `(total0, total1)` for
/// `total_supply` shares. See [`shares_and_usable`].
pub fn calc_shares_and_usable_amounts(
    input_amount0: u128,
    input_amount1: u128,
    total0: u128,
    total1: u128,
    total_supply: u128,
) -> (r: CalcSharesAndUsableAmountsResponse)
    requires
        shares_computable(input_amount0 as nat, input_amount1 as nat, total0 as nat, total1 as nat, total_supply as nat),
    ensures
        (r.shares as nat, r.usable_amount0 as nat, r.usable_amount1 as nat)
            == shares_and_usable(input_amount0 as nat, input_amount1 as nat, total0 as nat, total1 as nat, total_supply as nat),
        r.usable_amount0 <= input_amount0,
        r.usable_amount1 <= input_amount1,
{
    if total_supply == 0 {
        let m = if input_amount0 >= input_amount1 { input_amount0 } else { input_amount1 };
        return CalcSharesAndUsableAmountsResponse {
            shares: m - MIN_LIQUIDITY,
            usable_amount0: input_amount0,
            usable_amount1: input_amount1,
        };
    }
    let supply = u256_from_u128(total_supply);
    if total0 == 0 {
        proof {
            lemma_u128_product_fits(input_amount1, total_supply);
        }
        let p = u256_checked_mul(&u256_from_u128(input_amount1), &supply).unwrap();
        let q = u256_checked_div(&p, &u256_from_u128(total1)).unwrap();
        let shares = u256_to_u128(&q).unwrap();
        return CalcSharesAndUsableAmountsResponse { shares, usable_amount0: 0, usable_amount1: input_amount1 };
    }
    if total1 == 0 {
        proof {
            lemma_u128_product_fits(input_amount0, total_supply);
        }
        let p = u256_checked_mul(&u256_from_u128(input_amount0), &supply).unwrap();
        let q = u256_checked_div(&p, &u256_from_u128(total0)).unwrap();
        let shares = u256_to_u128(&q).unwrap();
        return CalcSharesAndUsableAmountsResponse { shares, usable_amount0: input_amount0, usable_amount1: 0 };
    }
    let a0 = u256_from_u128(input_amount0);
    let a1 = u256_from_u128(input_amount1);
    let t0 = u256_from_u128(total0);
    let t1 = u256_from_u128(total1);
    proof {
        lemma_u128_product_fits(input_amount0, total1);
        lemma_u128_product_fits(input_amount1, total0);
    }
    let x = u256_checked_mul(&a0, &t1).unwrap();
    let y = u256_checked_mul(&a1, &t0).unwrap();
    let c = if u256_le(&x, &y) { x } else { y };
    let zero = u256_from_u128(0);
    if u256_le(&c, &zero) {
        return CalcSharesAndUsableAmountsResponse { shares: 0, usable_amount0: 0, usable_amount1: 0 };
    }
    let one = u256_from_u128(1);
    let c1 = u256_checked_sub(&c, &one).unwrap();
    proof {
        math::lemma_u256_bound(c1);
        vstd::arithmetic::div_mod::lemma_div_is_ordered_by_denominator(c1@ as int, 1, total1 as int);
        vstd::arithmetic::div_mod::lemma_div_is_ordered_by_denominator(c1@ as int, 1, total0 as int);
        lemma_ceil_div_le(c@, input_amount0 as nat, total1 as nat);
        lemma_ceil_div_le(c@, input_amount1 as nat, total0 as nat);
    }
    let u0 = u256_checked_add(&u256_checked_div(&c1, &t1).unwrap(), &one).unwrap();
    let u1 = u256_checked_add(&u256_checked_div(&c1, &t0).unwrap(), &one).unwrap();
    let usable_amount0 = u256_to_u128(&u0).unwrap();
    let usable_amount1 = u256_to_u128(&u1).unwrap();
    let cs = u256_checked_mul(&c, &supply).unwrap();
    let s0 = u256_checked_div(&cs, &t0).unwrap();
    let s1 = u256_checked_div(&s0, &t1).unwrap();
    let shares = u256_to_u128(&s1).unwrap();
    CalcSharesAndUsableAmountsResponse { shares, usable_amount0, usable_amount1 }
}

/// Depositing never dilutes the other shareholders: for a vault that already
/// has shares, the shares a deposit mints, valued at the vault's holdings
/// before the deposit, are worth no more than the amounts the deposit uses,
/// in either token (`shares / supply <= used / total`).
pub proof fn lemma_deposit_does_not_dilute(in0: nat, in1: nat, total0: nat, total1: nat, supply: nat)
    requires
        supply > 0,
        shares_computable(in0, in1, total0, total1, supply),
    ensures
        ({
            let (shares, used0, used1) = shares_and_usable(in0, in1, total0, total1, supply);
            shares * total0 <= used0 * supply && shares * total1 <= used1 * supply
        }),
{
    let (shares, used0, used1) = shares_and_usable(in0, in1, total0, total1, supply);
    if total0 == 0 {
        vstd::arithmetic::div_mod::lemma_fundamental_div_mod((in1 * supply) as int, total1 as int);
        vstd::arithmetic::div_mod::lemma_mod_bound((in1 * supply) as int, total1 as int);
        assert(shares * total1 <= in1 * supply) by (nonlinear_arith)
            requires
                shares == (in1 * supply) / total1,
                in1 * supply == total1 * ((in1 * supply) / total1) + (in1 * supply) % total1,
                (in1 * supply) % total1 >= 0,
        ;
    } else if total1 == 0 {
        vstd::arithmetic::div_mod::lemma_fundamental_div_mod((in0 * supply) as int, total0 as int);
        vstd::arithmetic::div_mod::lemma_mod_bound((in0 * supply) as int, total0 as int);
        assert(shares * total0 <= in0 * supply) by (nonlinear_arith)
            requires
                shares == (in0 * supply) / total0,
                in0 * supply == total0 * ((in0 * supply) / total0) + (in0 * supply) % total0,
                (in0 * supply) % total0 >= 0,
        ;
    } else {
        let c = cross(in0, in1, total0, total1);
        if c > 0 {
            lemma_floor_div2_le(c * supply, total0, total1);
            lemma_ceil_div_ge(c, total1);
            lemma_ceil_div_ge(c, total0);
            assert(shares * total0 * total1 <= c * supply);
            assert(shares * total0 <= used0 * supply) by (nonlinear_arith)
                requires
                    shares * total0 * total1 <= c * supply,
                    used0 * total1 >= c,
                    total1 > 0,
            ;
            assert(shares * total1 <= used1 * supply) by (nonlinear_arith)
                requires
                    shares * total0 * total1 <= c * supply,
                    used1 * total0 >= c,
                    total0 > 0,
            ;
        }
    }
}

/// `q = x / d` rounded down is the one number with `q * d <= x < (q + 1) * d`.
pub proof fn lemma_floor_div_brackets(x: nat, d: nat)
    requires
        d > 0,
    ensures
        (x / d) * d <= x < (x / d + 1) * d,
{
    vstd::arithmetic::div_mod::lemma_fundamental_div_mod(x as int, d as int);
    vstd::arithmetic::div_mod::lemma_mod_bound(x as int, d as int);
    let q = x / d;
    assert(q * d <= x < (q + 1) * d) by (nonlinear_arith)
        requires
            x == d * q + (x as int) % (d as int),
            0 <= (x as int) % (d as int) < d,
    ;
}

/// A deposit into a vault with shares that holds both tokens is cut to the
/// vault's proportion. With `c = min(in0 * total1, in1 * total0)`, the deposit
/// measured at the vault's proportion:
/// - each used amount is `c` over the other token's total, rounded up
///   (`(used1 - 1) * total0 < c <= used1 * total0`, and likewise for token0),
///   and never more than was brought, so the token in excess of the
///   proportion is not all used and the rest is refunded;
/// - the shares are `c * supply / (total0 * total1)` rounded down;
/// - a deposit worth nothing at the vault's proportion uses nothing and mints
///   nothing.
pub proof fn lemma_deposit_uses_vault_proportion(in0: nat, in1: nat, total0: nat, total1: nat, supply: nat)
    requires
        supply > 0,
        total0 > 0,
        total1 > 0,
        shares_computable(in0, in1, total0, total1, supply),
    ensures
        ({
            let (shares, used0, used1) = shares_and_usable(in0, in1, total0, total1, supply);
            let c = if in0 * total1 <= in1 * total0 { in0 * total1 } else { in1 * total0 };
            &&& used0 <= in0 && used1 <= in1
            &&& c == 0 ==> shares == 0 && used0 == 0 && used1 == 0
            &&& c > 0 ==> (used0 - 1) * total1 < c <= used0 * total1
            &&& c > 0 ==> (used1 - 1) * total0 < c <= used1 * total0
            &&& shares * (total0 * total1) <= c * supply < (shares + 1) * (total0 * total1)
        }),
{
    let (shares, used0, used1) = shares_and_usable(in0, in1, total0, total1, supply);
    let c = cross(in0, in1, total0, total1);
    assert(c == if in0 * total1 <= in1 * total0 { in0 * total1 } else { in1 * total0 });
    assert(c <= in0 * total1 && c <= in1 * total0);
    if c > 0 {
        lemma_ceil_div_le(c, in0, total1);
        lemma_ceil_div_le(c, in1, total0);
        lemma_floor_div_brackets((c - 1) as nat, total1);
        lemma_floor_div_brackets((c - 1) as nat, total0);
        lemma_ceil_div_ge(c, total1);
        lemma_ceil_div_ge(c, total0);
    }
    assert(total0 * total1 > 0) by (nonlinear_arith)
        requires
            total0 > 0,
            total1 > 0,
    ;
    vstd::arithmetic::div_mod::lemma_div_denominator((c * supply) as int, total0 as int, total1 as int);
    lemma_floor_div_brackets(c * supply, total0 * total1);
}

/// The first deposit into an empty vault uses all it brings and mints
/// `max(amount0, amount1) - MIN_LIQUIDITY` shares.
pub proof fn lemma_first_deposit_shares(in0: nat, in1: nat)
    requires
        shares_computable(in0, in1, 0, 0, 0),
    ensures
        ({
            let (shares, used0, used1) = shares_and_usable(in0, in1, 0, 0, 0);
            shares + MIN_LIQUIDITY == max_nat(in0, in1) && used0 == in0 && used1 == in1
        }),
{
}

/// Fees earned by the three positions, in token0.
pub open spec fn total_fees0(p: [PositionBalancesWithFeesResponse; 3]) -> nat {
    (p[0].bal0_fees + p[1].bal0_fees + p[2].bal0_fees) as nat
}

/// Fees earned by the three positions, in token1.
pub open spec fn total_fees1(p: [PositionBalancesWithFeesResponse; 3]) -> nat {
    (p[0].bal1_fees + p[1].bal1_fees + p[2].bal1_fees) as nat
}

/// Everything the vault holds in token0: known funds, the three positions and their fees.
pub open spec fn gross0(p: [PositionBalancesWithFeesResponse; 3], funds: FundsInfo) -> nat {
    (funds.available_balance0 + p[0].bal0 + p[1].bal0 + p[2].bal0 + total_fees0(p)) as nat
}

/// Everything the vault holds in token1: known funds, the three positions and their fees.
pub open spec fn gross1(p: [PositionBalancesWithFeesResponse; 3], funds: FundsInfo) -> nat {
    (funds.available_balance1 + p[0].bal1 + p[1].bal1 + p[2].bal1 + total_fees1(p)) as nat
}

/// The holdings fit in 128 bits, so that adding them up does not overflow.
pub open spec fn balances_computable(p: [PositionBalancesWithFeesResponse; 3], funds: FundsInfo) -> bool {
    gross0(p, funds) <= u128::MAX && gross1(p, funds) <= u128::MAX
}

/// Splits what the vault holds into what belongs to the depositors and the
/// fees not yet claimed by the protocol and the admin. `positions` are the
/// full range, base and limit positions; each fee is the fee rate times the
/// fees the positions earned, rounded down.
pub fn vault_balances(positions: &[PositionBalancesWithFeesResponse; 3], funds: &FundsInfo, fees: &FeesInfo) -> (r: VaultBalancesResponse)
    requires
        balances_computable(*positions, *funds),
        fees.wf(),
    ensures
        r.protocol_unclaimed_fees0 == math::prec_mul_value(total_fees0(*positions), fees.protocol_fee.0.0@),
        r.protocol_unclaimed_fees1 == math::prec_mul_value(total_fees1(*positions), fees.protocol_fee.0.0@),
        r.admin_unclaimed_fees0 == math::prec_mul_value(total_fees0(*positions), fees.admin_fee.0.0@),
        r.admin_unclaimed_fees1 == math::prec_mul_value(total_fees1(*positions), fees.admin_fee.0.0@),
        r.bal0 == gross0(*positions, *funds) - r.protocol_unclaimed_fees0 - r.admin_unclaimed_fees0,
        r.bal1 == gross1(*positions, *funds) - r.protocol_unclaimed_fees1 - r.admin_unclaimed_fees1,
{
    let fr = &positions[0];
    let base = &positions[1];
    let limit = &positions[2];
    let fees0 = fr.bal0_fees + base.bal0_fees + limit.bal0_fees;
    let fees1 = fr.bal1_fees + base.bal1_fees + limit.bal1_fees;
    let pf = fees.protocol_fee.0;
    let af = fees.admin_fee.0;
    let protocol_unclaimed_fees0 = u256_to_u128(&pf.mul_raw(fees0).atomics).unwrap();
    let protocol_unclaimed_fees1 = u256_to_u128(&pf.mul_raw(fees1).atomics).unwrap();
    let admin_unclaimed_fees0 = u256_to_u128(&af.mul_raw(fees0).atomics).unwrap();
    let admin_unclaimed_fees1 = u256_to_u128(&af.mul_raw(fees1).atomics).unwrap();
    proof {
        lemma_fee_shares_fit(fees0 as nat, pf.0@, af.0@);
        lemma_fee_shares_fit(fees1 as nat, pf.0@, af.0@);
    }
    let bal0 = funds.available_balance0 + fr.bal0 + base.bal0 + limit.bal0 + fees0 - protocol_unclaimed_fees0
        - admin_unclaimed_fees0;
    let bal1 = funds.available_balance1 + fr.bal1 + base.bal1 + limit.bal1 + fees1 - protocol_unclaimed_fees1
        - admin_unclaimed_fees1;
    VaultBalancesResponse {
        bal0,
        bal1,
        protocol_unclaimed_fees0,
        protocol_unclaimed_fees1,
        admin_unclaimed_fees0,
        admin_unclaimed_fees1,
    }
}

/// Two fees of at most `0.1` each never take more than the fees earned.
pub proof fn lemma_fee_shares_fit(total: nat, protocol: nat, admin: nat)
    requires
        protocol <= crate::constants::MAX_PROTOCOL_FEE_ATOMICS,
        admin <= crate::constants::MAX_PROTOCOL_FEE_ATOMICS,
    ensures
        math::prec_mul_value(total, protocol) + math::prec_mul_value(total, admin) <= total,
{
    let one = math::prec_one();
    let tenth = crate::constants::MAX_PROTOCOL_FEE_ATOMICS as nat;
    assert(total * protocol <= total * tenth) by (nonlinear_arith)
        requires
            protocol <= tenth,
    ;
    assert(total * admin <= total * tenth) by (nonlinear_arith)
        requires
            admin <= tenth,
    ;
    vstd::arithmetic::div_mod::lemma_div_is_ordered((total * protocol) as int, (total * tenth) as int, one as int);
    vstd::arithmetic::div_mod::lemma_div_is_ordered((total * admin) as int, (total * tenth) as int, one as int);
    assert(total * tenth / one <= total / 10) by {
        assert(total * tenth == (total * 100_000_000_000_000_000_000_000_000nat));
        vstd::arithmetic::div_mod::lemma_div_denominator((total * tenth) as int, 100_000_000_000_000_000_000_000_000, 10);
        vstd::arithmetic::div_mod::lemma_div_by_multiple(total as int, 100_000_000_000_000_000_000_000_000);
    }
    assert(total / 10 + total / 10 <= total) by {
        vstd::arithmetic::div_mod::lemma_fundamental_div_mod(total as int, 10);
    }
}

/// What the vault holds is split exactly: depositors' balances plus the
/// unclaimed protocol and admin fees add up to everything the vault holds.
pub proof fn lemma_vault_balances_conserve(
    p: [PositionBalancesWithFeesResponse; 3],
    funds: FundsInfo,
    fees: FeesInfo,
    r: VaultBalancesResponse,
)
    requires
        fees.wf(),
        r.protocol_unclaimed_fees0 == math::prec_mul_value(total_fees0(p), fees.protocol_fee.0.0@),
        r.protocol_unclaimed_fees1 == math::prec_mul_value(total_fees1(p), fees.protocol_fee.0.0@),
        r.admin_unclaimed_fees0 == math::prec_mul_value(total_fees0(p), fees.admin_fee.0.0@),
        r.admin_unclaimed_fees1 == math::prec_mul_value(total_fees1(p), fees.admin_fee.0.0@),
        r.bal0 == gross0(p, funds) - r.protocol_unclaimed_fees0 - r.admin_unclaimed_fees0,
        r.bal1 == gross1(p, funds) - r.protocol_unclaimed_fees1 - r.admin_unclaimed_fees1,
    ensures
        r.bal0 + r.protocol_unclaimed_fees0 + r.admin_unclaimed_fees0 == gross0(p, funds),
        r.bal1 + r.protocol_unclaimed_fees1 + r.admin_unclaimed_fees1 == gross1(p, funds),
        r.protocol_unclaimed_fees0 + r.admin_unclaimed_fees0 <= total_fees0(p),
        r.protocol_unclaimed_fees1 + r.admin_unclaimed_fees1 <= total_fees1(p),
{
    lemma_fee_shares_fit(total_fees0(p), fees.protocol_fee.0.0@, fees.admin_fee.0.0@);
    lemma_fee_shares_fit(total_fees1(p), fees.protocol_fee.0.0@, fees.admin_fee.0.0@);
}

/// Every position's fees are counted, in both tokens: the depositors'
/// balance plus the unclaimed protocol and admin fees is the known funds plus
/// each of the three positions' amounts and fees, and each unclaimed fee is
/// its rate (27 decimals) times the fees of all three positions, rounded down.
pub proof fn lemma_vault_balances_count_every_position(
    p: [PositionBalancesWithFeesResponse; 3],
    funds: FundsInfo,
    fees: FeesInfo,
    r: VaultBalancesResponse,
)
    requires
        fees.wf(),
        r.protocol_unclaimed_fees0 == math::prec_mul_value(total_fees0(p), fees.protocol_fee.0.0@),
        r.protocol_unclaimed_fees1 == math::prec_mul_value(total_fees1(p), fees.protocol_fee.0.0@),
        r.admin_unclaimed_fees0 == math::prec_mul_value(total_fees0(p), fees.admin_fee.0.0@),
        r.admin_unclaimed_fees1 == math::prec_mul_value(total_fees1(p), fees.admin_fee.0.0@),
        r.bal0 == gross0(p, funds) - r.protocol_unclaimed_fees0 - r.admin_unclaimed_fees0,
        r.bal1 == gross1(p, funds) - r.protocol_unclaimed_fees1 - r.admin_unclaimed_fees1,
    ensures
        r.bal0 + r.protocol_unclaimed_fees0 + r.admin_unclaimed_fees0 == funds.available_balance0
            + p[0].bal0 + p[0].bal0_fees + p[1].bal0 + p[1].bal0_fees + p[2].bal0 + p[2].bal0_fees,
        r.bal1 + r.protocol_unclaimed_fees1 + r.admin_unclaimed_fees1 == funds.available_balance1
            + p[0].bal1 + p[0].bal1_fees + p[1].bal1 + p[1].bal1_fees + p[2].bal1 + p[2].bal1_fees,
        r.protocol_unclaimed_fees0 == (p[0].bal0_fees + p[1].bal0_fees + p[2].bal0_fees) * fees.protocol_fee.0.0@
            / 1_000_000_000_000_000_000_000_000_000int,
        r.admin_unclaimed_fees0 == (p[0].bal0_fees + p[1].bal0_fees + p[2].bal0_fees) * fees.admin_fee.0.0@
            / 1_000_000_000_000_000_000_000_000_000int,
        r.protocol_unclaimed_fees1 == (p[0].bal1_fees + p[1].bal1_fees + p[2].bal1_fees) * fees.protocol_fee.0.0@
            / 1_000_000_000_000_000_000_000_000_000int,
        r.admin_unclaimed_fees1 == (p[0].bal1_fees + p[1].bal1_fees + p[2].bal1_fees) * fees.admin_fee.0.0@
            / 1_000_000_000_000_000_000_000_000_000int,
{
    lemma_vault_balances_conserve(p, funds, fees, r);
}

/// `2^128`: one more than the largest `u128`.
pub open spec fn u128_limit() -> nat {
    u128::MAX as nat + 1
}

/// The amount text of the first coin of `denom`, if any.
pub open spec fn find_amount(coins: Seq<DexCoin>, denom: Seq<char>) -> Option<Seq<char>>
    decreases coins.len(),
{
    if coins.len() == 0 {
        None
    } else if coins[0].denom@ == denom {
        Some(coins[0].amount@)
    } else {
        find_amount(coins.drop_first(), denom)
    }
}

/// The amount of `denom` among `coins`: zero when absent, otherwise what the
/// first such coin's amount reads as (`None` when it does not read).
pub open spec fn reward_amount(coins: Seq<DexCoin>, denom: Seq<char>) -> Option<nat> {
    match find_amount(coins, denom) {
        None => Some(0),
        Some(t) => text::parse_uint(t, u128_limit()),
    }
}

/// A dex position as queried: its two assets and the rewards it can claim.
#[derive(Clone, Debug, PartialEq, Eq)]
pub struct PositionData {
    pub asset0: DexCoin,
    pub asset1: DexCoin,
    pub claimable_spread_rewards: Vec<DexCoin>,
    pub claimable_incentives: Vec<DexCoin>,
}

/// The amount of `denom` among `coins`: zero when absent, else the first
/// such coin's amount, which must read as an integer.
fn extract_amount(coins: &Vec<DexCoin>, denom: &String) -> (r: u128)
    requires
        reward_amount(coins@, denom@) is Some,
    ensures
        r as nat == reward_amount(coins@, denom@).unwrap(),
{
    let mut i: usize = 0;
    assert(coins@.skip(0) =~= coins@);
    while i < coins.len()
        invariant
            i <= coins@.len(),
            reward_amount(coins@, denom@) is Some,
            find_amount(coins@, denom@) == find_amount(coins@.skip(i as int), denom@),
        decreases coins@.len() - i,
    {
        assert(coins@.skip(i as int)[0] == coins@[i as int]);
        if coins[i].denom.eq(denom) {
            return u128_parse(coins[i].amount.as_str()).unwrap();
        }
        assert(coins@.skip(i as int).drop_first() =~= coins@.skip(i + 1));
        i = i + 1;
    }
    0
}

/// The position's amounts read and its fees found: the inputs on which
/// [`position_balance`] completes.
pub open spec fn position_readable(p: PositionData) -> bool {
    &&& text::parse_uint(p.asset0.amount@, u128_limit()) is Some
    &&& text::parse_uint(p.asset1.amount@, u128_limit()) is Some
    &&& reward_amount(p.claimable_spread_rewards@, p.asset0.denom@) is Some
    &&& reward_amount(p.claimable_spread_rewards@, p.asset1.denom@) is Some
    &&& reward_amount(p.claimable_incentives@, p.asset0.denom@) is Some
    &&& reward_amount(p.claimable_incentives@, p.asset1.denom@) is Some
    &&& reward_amount(p.claimable_spread_rewards@, p.asset0.denom@).unwrap()
        + reward_amount(p.claimable_incentives@, p.asset0.denom@).unwrap() <= u128::MAX
    &&& reward_amount(p.claimable_spread_rewards@, p.asset1.denom@).unwrap()
        + reward_amount(p.claimable_incentives@, p.asset1.denom@).unwrap() <= u128::MAX
}

/// Amounts in a position and the fees it earned. Each asset amount is
/// counted one atomic unit short (a withdrawal can leave one unit behind);
/// the fees are the spread rewards plus the incentives in each token. A
/// position that is not open holds nothing.
pub fn position_balance(position: &Option<PositionData>, denom0: &String, denom1: &String) -> (r: PositionBalancesWithFeesResponse)
    requires
        position matches Some(p) ==> position_readable(*p) && p.asset0.denom@ == denom0@ && p.asset1.denom@ == denom1@,
    ensures
        match position {
            None => r == (PositionBalancesWithFeesResponse { bal0: 0, bal1: 0, bal0_fees: 0, bal1_fees: 0 }),
            Some(p) => {
                let a0 = text::parse_uint(p.asset0.amount@, u128_limit()).unwrap();
                let a1 = text::parse_uint(p.asset1.amount@, u128_limit()).unwrap();
                &&& r.bal0 == if a0 == 0 { 0 } else { (a0 - 1) as nat }
                &&& r.bal1 == if a1 == 0 { 0 } else { (a1 - 1) as nat }
                &&& r.bal0_fees == reward_amount(p.claimable_spread_rewards@, denom0@).unwrap()
                    + reward_amount(p.claimable_incentives@, denom0@).unwrap()
                &&& r.bal1_fees == reward_amount(p.claimable_spread_rewards@, denom1@).unwrap()
                    + reward_amount(p.claimable_incentives@, denom1@).unwrap()
            },
        },
{
    let pos = match position {
        None => return PositionBalancesWithFeesResponse { bal0: 0, bal1: 0, bal0_fees: 0, bal1_fees: 0 },
        Some(p) => p,
    };
    let a0 = u128_parse(pos.asset0.amount.as_str()).unwrap();
    let a1 = u128_parse(pos.asset1.amount.as_str()).unwrap();
    let bal0 = if a0 == 0 { 0 } else { a0 - 1 };
    let bal1 = if a1 == 0 { 0 } else { a1 - 1 };
    let spread0 = extract_amount(&pos.claimable_spread_rewards, &pos.asset0.denom);
    let spread1 = extract_amount(&pos.claimable_spread_rewards, &pos.asset1.denom);
    let incentive0 = extract_amount(&pos.claimable_incentives, &pos.asset0.denom);
    let incentive1 = extract_amount(&pos.claimable_incentives, &pos.asset1.denom);
    PositionBalancesWithFeesResponse {
        bal0,
        bal1,
        bal0_fees: spread0 + incentive0,
        bal1_fees: spread1 + incentive1,
    }
}

} // verus!
