//! Helpers for the dex: prices and ticks, pair identifiers, and the share
//! amounts of liquidity removals.

use vstd::prelude::*;

use crate::math::{self, Dec27, u256_checked_mul, u256_from_u128};
use crate::state::{DexCoin, PositionType, VaultState, Weight, position_shares};
use crate::text::{self, string_lt, u128_parse};

verus! {

/// Rust's integer division, which rounds toward zero, for `b > 0`.
pub open spec fn trunc_div(a: int, b: int) -> int {
    if a >= 0 {
        a / b
    } else {
        -((-a) / b)
    }
}

/// The highest price the dex works with, `2020125331305056766452345`.
pub fn max_price() -> (r: Dec27)
    ensures
        r@ == 2020125331305056766452345nat * math::prec_one(),
{
    let whole = u256_from_u128(2020125331305056766452345u128);
    let one = Dec27::one();
    assert(2020125331305056766452345nat * math::prec_one() < math::u256_limit());
    Dec27 { atomics: u256_checked_mul(&whole, &one.atomics).unwrap() }
}

/// The identifier of the pair of two tokens: both denominations, sorted,
/// joined by `<>`.
pub open spec fn pair_id_text(token0: Seq<char>, token1: Seq<char>) -> Seq<char> {
    if text::str_lt(token1, token0) {
        token1 + "<>"@ + token0
    } else {
        token0 + "<>"@ + token1
    }
}

/// The identifier of the pair of `token0` and `token1`: both sorted and
/// joined by `<>`.
pub fn sort_token_data_and_get_pair_id_str(token0: &String, token1: &String) -> (r: String)
    ensures
        r@ == pair_id_text(token0@, token1@),
{
    let r = if string_lt(token1.as_str(), token0.as_str()) {
        token1.clone().concat("<>").concat(token0.as_str())
    } else {
        token0.clone().concat("<>").concat(token1.as_str())
    };
    proof {
        reveal_strlit("<>");
    }
    r
}

/// Both orders of two tokens name the same pair.
pub proof fn lemma_pair_id_symmetric(token0: Seq<char>, token1: Seq<char>)
    ensures
        pair_id_text(token0, token1) == pair_id_text(token1, token0),
{
    let b0 = vstd::utf8::encode_utf8(token0);
    let b1 = vstd::utf8::encode_utf8(token1);
    text::lemma_bytes_lt_asymmetric(b0, b1);
    if b0 == b1 {
        vstd::utf8::encode_utf8_decode_utf8(token0);
        vstd::utf8::encode_utf8_decode_utf8(token1);
        assert(token0 == token1);
    } else {
        text::lemma_bytes_lt_total(b0, b1);
    }
}

/// The key of a dex liquidity entry: a pool reserve or a limit order tranche,
/// each known by the tick at which a taker trades into it.
#[derive(Clone, Copy, Debug, PartialEq, Eq)]
pub enum Liquidity {
    PoolReserves { tick_index_taker_to_maker: Option<i64> },
    LimitOrderTranche { tick_index_taker_to_maker: Option<i64> },
}

/// A liquidity entry of the dex, as queried.
#[derive(Clone, Copy, Debug, PartialEq, Eq)]
pub struct TickLiquidity {
    pub liquidity: Option<Liquidity>,
}

/// The tick of a liquidity entry, if it has one.
pub open spec fn liquidity_tick(l: TickLiquidity) -> Option<i64> {
    match l.liquidity {
        Some(Liquidity::PoolReserves { tick_index_taker_to_maker }) => tick_index_taker_to_maker,
        Some(Liquidity::LimitOrderTranche { tick_index_taker_to_maker }) => tick_index_taker_to_maker,
        None => None,
    }
}

/// The tick at which a taker trades into a liquidity entry.
pub fn get_tick_index_for_liquidity(liquidity: &TickLiquidity) -> (r: i64)
    requires
        liquidity_tick(*liquidity) is Some,
    ensures
        Some(r) == liquidity_tick(*liquidity),
{
    match liquidity.liquidity.unwrap() {
        Liquidity::PoolReserves { tick_index_taker_to_maker } => tick_index_taker_to_maker.unwrap(),
        Liquidity::LimitOrderTranche { tick_index_taker_to_maker } => tick_index_taker_to_maker.unwrap(),
    }
}

/// The tick of the first entry a liquidity query answered with, when the
/// query succeeded (`None` stands for a failed query).
pub open spec fn first_tick(answer: Option<Vec<TickLiquidity>>) -> Option<i64> {
    match answer {
        Some(entries) => if entries.len() > 0 {
            liquidity_tick(entries@[0])
        } else {
            None
        },
        None => None,
    }
}

/// A liquidity query answer whose first entry can be read: the query failed,
/// or its first entry has a tick.
pub open spec fn answer_readable(answer: Option<Vec<TickLiquidity>>) -> bool {
    answer is Some ==> first_tick(answer) is Some
}

/// The current tick of a pair from the liquidity of each token: the tick of
/// token0's first entry, the negated tick of token1's first entry, or the
/// truncated mean of both; `None` when both queries failed.
pub open spec fn current_tick_of(liq0: Option<Vec<TickLiquidity>>, liq1: Option<Vec<TickLiquidity>>) -> Option<int> {
    if liq0 is None && liq1 is None {
        None
    } else if liq0 is None {
        Some(-(first_tick(liq1).unwrap() as int))
    } else if liq1 is None {
        Some(first_tick(liq0).unwrap() as int)
    } else {
        Some(trunc_div(first_tick(liq0).unwrap() + first_tick(liq1).unwrap(), 2))
    }
}

/// The current tick can be computed within 64 bits: the answers are readable,
/// a negated tick is not `i64::MIN`, and the sum of both ticks fits.
pub open spec fn current_tick_computable(liq0: Option<Vec<TickLiquidity>>, liq1: Option<Vec<TickLiquidity>>) -> bool {
    &&& answer_readable(liq0)
    &&& answer_readable(liq1)
    &&& liq0 is None && liq1 is Some ==> first_tick(liq1).unwrap() != i64::MIN
    &&& liq0 is Some && liq1 is Some ==> i64::MIN <= first_tick(liq0).unwrap() + first_tick(liq1).unwrap() <= i64::MAX
}

/// `1.0001`, the price step of one tick, in atomics.
pub open spec fn tick_base() -> nat {
    1_000_100_000_000_000_000_000_000_000nat
}

/// `a * b` rounded down to 27 decimals, `None` when it reaches `2^256` atomics.
pub open spec fn prec_mul_opt(a: nat, b: nat) -> Option<nat> {
    if math::prec_mul_value(a, b) < math::u256_limit() {
        Some(math::prec_mul_value(a, b))
    } else {
        None
    }
}

/// Exponentiation by squaring on 27-decimal numbers, every product rounded
/// down: the state `(x, y, n)` stands for `x^n * y`; `None` when a product
/// overflows.
pub open spec fn pow_loop(x: nat, y: nat, n: nat) -> Option<nat>
    decreases n,
{
    if n <= 1 {
        prec_mul_opt(x, y)
    } else if n % 2 == 0 {
        match prec_mul_opt(x, x) {
            Some(x2) => pow_loop(x2, y, n / 2),
            None => None,
        }
    } else {
        match prec_mul_opt(x, y) {
            Some(y2) => match prec_mul_opt(x, x) {
                Some(x2) => pow_loop(x2, y2, (n - 1) as nat / 2),
                None => None,
            },
            None => None,
        }
    }
}

/// `x^n` on 27-decimal numbers as computed by squaring, `None` on overflow.
pub open spec fn prec_pow(x: nat, n: nat) -> Option<nat> {
    if n == 0 {
        Some(math::prec_one())
    } else {
        pow_loop(x, math::prec_one(), n)
    }
}

/// `x^n` by squaring, every product rounded down to 27 decimals; `None` when
/// a product overflows.
pub fn checked_pow(x: &Dec27, n: u32) -> (r: Option<Dec27>)
    ensures
        match r {
            Some(v) => prec_pow(x@, n as nat) == Some(v@),
            None => prec_pow(x@, n as nat) is None,
        },
{
    if n == 0 {
        return Some(Dec27::one());
    }
    let mut b = *x;
    let mut y = Dec27::one();
    let mut e = n;
    while e > 1
        invariant
            e >= 1,
            prec_pow(x@, n as nat) == pow_loop(b@, y@, e as nat),
        decreases e,
    {
        if e % 2 == 0 {
            match b.checked_mul(&b) {
                Some(b2) => b = b2,
                None => return None,
            }
            e = e / 2;
        } else {
            let y2 = match b.checked_mul(&y) {
                Some(v) => v,
                None => return None,
            };
            match b.checked_mul(&b) {
                Some(b2) => b = b2,
                None => return None,
            }
            y = y2;
            e = (e - 1) / 2;
        }
    }
    b.checked_mul(&y)
}

/// The price at `tick_index`: `1.0001` raised to the tick read as a `u32`
/// (a negative tick wraps around).
pub open spec fn tick_price(tick_index: i64) -> Option<nat> {
    prec_pow(tick_base(), (tick_index as u32) as nat)
}

/// The price at `tick_index`, `1.0001^tick_index`. The power must not overflow.
pub fn tick_index_to_price(tick_index: i64) -> (r: Dec27)
    requires
        tick_price(tick_index) is Some,
    ensures
        Some(r@) == tick_price(tick_index),
{
    checked_tick_index_to_price(tick_index).unwrap()
}

/// The price at `tick_index`, or `None` when the power overflows.
pub fn checked_tick_index_to_price(tick_index: i64) -> (r: Option<Dec27>)
    ensures
        match r {
            Some(v) => tick_price(tick_index) == Some(v@),
            None => tick_price(tick_index) is None,
        },
{
    let base = Dec27::raw(1_000_100_000_000_000_000_000_000_000u128);
    checked_pow(&base, tick_index as u32)
}

/// The tick of the first entry of a liquidity answer, when it has one.
fn first_entry_tick(answer: &Option<Vec<TickLiquidity>>) -> (r: Option<i64>)
    ensures
        r == first_tick(*answer),
{
    match answer {
        Some(entries) => if entries.len() > 0 {
            match entries[0].liquidity {
                Some(Liquidity::PoolReserves { tick_index_taker_to_maker }) => tick_index_taker_to_maker,
                Some(Liquidity::LimitOrderTranche { tick_index_taker_to_maker }) => tick_index_taker_to_maker,
                None => None,
            }
        } else {
            None
        },
        None => None,
    }
}

/// Whether the price of a pair can be read from the answers to its liquidity
/// queries: the current tick can be computed and its power does not
/// overflow. The test to make before calling [`PairId::price`](crate::state::PairId::price).
pub fn price_readable(liq0: &Option<Vec<TickLiquidity>>, liq1: &Option<Vec<TickLiquidity>>) -> (r: bool)
    ensures
        r == (current_tick_computable(*liq0, *liq1)
            && (current_tick_of(*liq0, *liq1) matches Some(t) ==> tick_price(t as i64) is Some)),
{
    let t0 = first_entry_tick(liq0);
    let t1 = first_entry_tick(liq1);
    if (liq0.is_some() && t0.is_none()) || (liq1.is_some() && t1.is_none()) {
        return false;
    }
    let tick = match (t0, t1) {
        (None, None) => return true,
        (Some(a), None) => a,
        (None, Some(b)) => if b == i64::MIN {
            return false;
        } else {
            -b
        },
        (Some(a), Some(b)) => match a.checked_add(b) {
            Some(v) => v / 2,
            None => return false,
        },
    };
    checked_tick_index_to_price(tick).is_some()
}

/// The tick range `[lower_tick, upper_tick]` cut down to at most about
/// `max_ticks` ticks around its middle.
pub open spec fn bounded_tick_range(lower_tick: int, upper_tick: int, max_ticks: int) -> (int, int) {
    if upper_tick - lower_tick <= max_ticks {
        (lower_tick, upper_tick)
    } else {
        let middle = trunc_div(upper_tick + lower_tick, 2);
        (middle - trunc_div(max_ticks, 2), middle + trunc_div(max_ticks, 2))
    }
}

/// Keeps `[lower_tick, upper_tick]` when it spans at most `max_ticks` ticks;
/// otherwise centres a range of `max_ticks / 2` ticks on each side of its middle.
pub fn calc_bounded_tick_range(lower_tick: i64, upper_tick: i64, max_ticks: i64) -> (r: (i64, i64))
    requires
        lower_tick <= upper_tick,
        upper_tick - lower_tick <= i64::MAX,
        upper_tick - lower_tick > max_ticks ==> {
            let middle = trunc_div(upper_tick + lower_tick, 2);
            &&& i64::MIN <= upper_tick + lower_tick <= i64::MAX
            &&& i64::MIN <= middle - trunc_div(max_ticks as int, 2)
            &&& middle + trunc_div(max_ticks as int, 2) <= i64::MAX
        },
    ensures
        (r.0 as int, r.1 as int) == bounded_tick_range(lower_tick as int, upper_tick as int, max_ticks as int),
{
    if upper_tick - lower_tick <= max_ticks {
        (lower_tick, upper_tick)
    } else {
        let middle_tick = (upper_tick + lower_tick) / 2;
        (middle_tick - max_ticks / 2, middle_tick + max_ticks / 2)
    }
}

/// A cut range spans at most `max_ticks` ticks and stays ordered.
pub proof fn lemma_bounded_tick_range_width(lower_tick: int, upper_tick: int, max_ticks: int)
    requires
        lower_tick <= upper_tick,
        max_ticks >= 0,
    ensures
        ({
            let (lo, hi) = bounded_tick_range(lower_tick, upper_tick, max_ticks);
            hi - lo <= max_ticks || (lo == lower_tick && hi == upper_tick)
        }),
{
}

/// The amount text of a share after scaling by a weight: the share amount
/// (read as an integer) times the weight, as a 27-decimal number whose atomics
/// are the scaled amount, written out.
pub open spec fn proportion_text(amount: Seq<char>, w: nat) -> Seq<char> {
    text::fixed_text(math::prec_mul_value(text::parse_uint(amount, crate::query::u128_limit()).unwrap(), w), 27)
}

/// The share amounts read as integers.
pub open spec fn shares_readable(coins: Seq<DexCoin>) -> bool {
    forall|i: int| 0 <= i < coins.len() ==> (#[trigger] text::parse_uint(coins[i].amount@, crate::query::u128_limit())) is Some
}

/// A share scaled by `liquidity_proportion`: same denomination, amount
/// `liquidity_proportion.mul_raw(amount)` written out as a decimal.
pub fn calc_shares_proportion(shares: &DexCoin, liquidity_proportion: &Weight) -> (r: DexCoin)
    requires
        text::parse_uint(shares.amount@, crate::query::u128_limit()) is Some,
        liquidity_proportion.wf(),
    ensures
        r.denom == shares.denom,
        r.amount@ == proportion_text(shares.amount@, liquidity_proportion.0@),
{
    let amount = u128_parse(shares.amount.as_str()).unwrap();
    DexCoin { amount: liquidity_proportion.mul_raw(amount).to_string(), denom: shares.denom.clone() }
}

/// A withdrawal of dex shares, taken from and paid to the vault.
#[derive(Clone, Debug, PartialEq, Eq)]
pub struct WithdrawalWithShares {
    pub shares_to_remove: Vec<DexCoin>,
    pub creator: String,
    pub receiver: String,
}

/// The denominations and amount texts of coins.
pub open spec fn coin_views(coins: Seq<DexCoin>) -> Seq<(Seq<char>, Seq<char>)> {
    coins.map_values(|c: DexCoin| (c.denom@, c.amount@))
}

/// The scaled shares whose amount text reads as a positive integer.
pub open spec fn removal_views(coins: Seq<DexCoin>, w: nat) -> Seq<(Seq<char>, Seq<char>)>
    decreases coins.len(),
{
    if coins.len() == 0 {
        seq![]
    } else {
        let prev = removal_views(coins.drop_last(), w);
        let t = proportion_text(coins.last().amount@, w);
        match text::parse_uint(t, crate::query::u128_limit()) {
            Some(v) => if v != 0 {
                prev.push((coins.last().denom@, t))
            } else {
                prev
            },
            None => prev,
        }
    }
}

/// The message that takes `liquidity_proportion` of a position's dex shares
/// out: `None` when the proportion is zero, the position is not open, or no
/// scaled share amount reads as a positive integer (the dex refuses zero
/// amounts).
pub fn remove_liquidity_msg(
    for_position: PositionType,
    vault_state: &VaultState,
    contract_addr: &String,
    liquidity_proportion: &Weight,
) -> (r: Option<WithdrawalWithShares>)
    requires
        liquidity_proportion.wf(),
        position_shares(*vault_state, for_position) matches Some(v) ==> shares_readable(v@),
    ensures
        liquidity_proportion.0@ == 0 ==> r is None,
        position_shares(*vault_state, for_position) is None ==> r is None,
        liquidity_proportion.0@ != 0 && position_shares(*vault_state, for_position) is Some ==> {
            let kept = removal_views(position_shares(*vault_state, for_position).unwrap()@, liquidity_proportion.0@);
            &&& kept.len() == 0 ==> r is None
            &&& kept.len() != 0 ==> (r matches Some(m) && coin_views(m.shares_to_remove@) == kept
                && m.creator@ == contract_addr@ && m.receiver@ == contract_addr@)
        },
{
    if liquidity_proportion.is_zero() {
        return None;
    }
    let position_shares = vault_state.from_position_type(for_position);
    let shares = match position_shares {
        Some(s) => s,
        None => return None,
    };
    let mut shares_to_remove: Vec<DexCoin> = Vec::new();
    let mut i: usize = 0;
    while i < shares.len()
        invariant
            i <= shares@.len(),
            liquidity_proportion.wf(),
            shares_readable(shares@),
            coin_views(shares_to_remove@) == removal_views(shares@.take(i as int), liquidity_proportion.0@),
        decreases shares@.len() - i,
    {
        proof {
            let t = shares@.take(i + 1);
            assert(t.drop_last() =~= shares@.take(i as int));
            assert(t.last() == shares@[i as int]);
            assert(text::parse_uint(shares@[i as int].amount@, crate::query::u128_limit()) is Some);
        }
        let coin = calc_shares_proportion(&shares[i], liquidity_proportion);
        match u128_parse(coin.amount.as_str()) {
            Some(amount) => {
                if amount != 0 {
                    let ghost prev = shares_to_remove@;
                    let ghost entry = (coin.denom@, coin.amount@);
                    shares_to_remove.push(coin);
                    proof {
                        assert(coin_views(shares_to_remove@) =~= coin_views(prev).push(entry));
                    }
                }
            },
            None => {},
        }
        i = i + 1;
    }
    assert(shares@.take(shares@.len() as int) =~= shares@);
    if shares_to_remove.len() == 0 {
        return None;
    }
    Some(WithdrawalWithShares { shares_to_remove, creator: contract_addr.clone(), receiver: contract_addr.clone() })
}

/// The share views a full withdrawal message for one position carries, or
/// `None` when no message is made for it.
pub open spec fn removal_of(vault_state: VaultState, for_position: PositionType, w: nat) -> Option<Seq<(Seq<char>, Seq<char>)>> {
    if w == 0 {
        None
    } else {
        match position_shares(vault_state, for_position) {
            None => None,
            Some(v) => {
                let kept = removal_views(v@, w);
                if kept.len() == 0 {
                    None
                } else {
                    Some(kept)
                }
            },
        }
    }
}

/// The share views of each message, in order.
pub open spec fn removals_views(msgs: Seq<WithdrawalWithShares>) -> Seq<Seq<(Seq<char>, Seq<char>)>> {
    msgs.map_values(|m: WithdrawalWithShares| coin_views(m.shares_to_remove@))
}

/// The messages made for the full range, base and limit positions, in that
/// order, skipping those for which none is made.
pub open spec fn removals_for(vault_state: VaultState, w: nat) -> Seq<Seq<(Seq<char>, Seq<char>)>> {
    let f = removal_of(vault_state, PositionType::FullRange, w);
    let b = removal_of(vault_state, PositionType::Base, w);
    let l = removal_of(vault_state, PositionType::Limit, w);
    let s0 = if f is Some { seq![f.unwrap()] } else { seq![] };
    let s1 = if b is Some { s0.push(b.unwrap()) } else { s0 };
    if l is Some { s1.push(l.unwrap()) } else { s1 }
}

/// The withdrawal messages taking `w` of every open position.
pub fn remove_liquidity_msgs(vault_state: &VaultState, contract_addr: &String, w: &Weight) -> (r: Vec<WithdrawalWithShares>)
    requires
        w.wf(),
        position_shares(*vault_state, PositionType::FullRange) matches Some(v) ==> shares_readable(v@),
        position_shares(*vault_state, PositionType::Base) matches Some(v) ==> shares_readable(v@),
        position_shares(*vault_state, PositionType::Limit) matches Some(v) ==> shares_readable(v@),
    ensures
        removals_views(r@) == removals_for(*vault_state, w.0@),
        forall|i: int| 0 <= i < r@.len() ==> (#[trigger] r@[i]).creator@ == contract_addr@ && r@[i].receiver@ == contract_addr@,
{
    let mut r: Vec<WithdrawalWithShares> = Vec::new();
    let full = remove_liquidity_msg(PositionType::FullRange, vault_state, contract_addr, w);
    let base = remove_liquidity_msg(PositionType::Base, vault_state, contract_addr, w);
    let limit = remove_liquidity_msg(PositionType::Limit, vault_state, contract_addr, w);
    let ghost f = removal_of(*vault_state, PositionType::FullRange, w.0@);
    let ghost b = removal_of(*vault_state, PositionType::Base, w.0@);
    let ghost s0: Seq<Seq<(Seq<char>, Seq<char>)>> = if f is Some { seq![f.unwrap()] } else { seq![] };
    let ghost s1 = if b is Some { s0.push(b.unwrap()) } else { s0 };
    if let Some(m) = full {
        r.push(m);
    }
    assert(removals_views(r@) =~= s0);
    if let Some(m) = base {
        r.push(m);
    }
    assert(removals_views(r@) =~= s1);
    if let Some(m) = limit {
        r.push(m);
    }
    assert(removals_views(r@) =~= removals_for(*vault_state, w.0@));
    r
}

} // verus!
