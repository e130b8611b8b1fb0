//! The vault's operations: each checks its request against the state and
//! says what changes and what is sent.

use vstd::prelude::*;

use crate::constants::{MIN_LIQUIDITY, PROTOCOL, VAULT_CREATION_COST_DENOM};
use crate::duality_helpers::{self, TickLiquidity, WithdrawalWithShares, get_tick_index_for_liquidity};
use crate::error::{AdminOperationError, DepositError, InstantiationError, ProtocolOperationError, RebalanceError, WithdrawalError};
use crate::math::{self, Dec27, u256_to_u128};
use crate::utils::{self, calc_x0, checked_calc_x0};
use crate::msg::{DepositMsg, VaultBalancesResponse, VaultInfoInstantiateMsg, VaultParametersInstantiateMsg, WithdrawMsg};
use crate::query::{self, calc_shares_and_usable_amounts};
use crate::state::{self, Coin, FeesInfo, FundsInfo, PairId, PositionType, ProtocolFee, StateSnapshot, VaultInfo, VaultParameters, VaultRebalancer, VaultState, Weight};
use crate::text::{self, decimal_text, u128_pair_text, u128_text};

verus! {

/// Whether a message is refused for bringing funds: only a deposit accepts
/// them.
pub fn refuses_funds(is_deposit: bool, funds: &Vec<Coin>) -> (r: bool)
    ensures
        r == (!is_deposit && funds@.len() > 0),
{
    !is_deposit && funds.len() > 0
}

/// The amount of the first coin of `denom` among `funds`, zero when none is.
pub open spec fn sent_amount(funds: Seq<Coin>, denom: Seq<char>) -> u128
    decreases funds.len(),
{
    if funds.len() == 0 {
        0
    } else if funds[0].denom@ == denom {
        funds[0].amount
    } else {
        sent_amount(funds.drop_first(), denom)
    }
}

/// The amount of the first coin of `denom` among `funds`, zero when none is.
fn find_sent_amount(funds: &Vec<Coin>, denom: &String) -> (r: u128)
    ensures
        r == sent_amount(funds@, denom@),
{
    let mut i: usize = 0;
    assert(funds@.skip(0) =~= funds@);
    while i < funds.len()
        invariant
            i <= funds@.len(),
            sent_amount(funds@, denom@) == sent_amount(funds@.skip(i as int), denom@),
        decreases funds@.len() - i,
    {
        assert(funds@.skip(i as int)[0] == funds@[i as int]);
        if funds[i].denom.eq(denom) {
            return funds[i].amount;
        }
        assert(funds@.skip(i as int).drop_first() =~= funds@.skip(i + 1));
        i = i + 1;
    }
    0
}

/// What a deposit does: the new known funds, the shares minted to the vault
/// itself (on the first deposit) and to the holder, and what is sent back.
#[derive(Clone, Debug, PartialEq, Eq)]
pub struct DepositOutcome {
    pub funds_info: FundsInfo,
    pub min_mint: u128,
    pub holder: String,
    pub shares: u128,
    pub refund: Vec<Coin>,
}

/// The checks a deposit passes before its shares are computed: tokens were
/// sent, exactly the announced amounts of the vault's two tokens, to a valid
/// holder other than the vault, and one amount exceeds [`MIN_LIQUIDITY`].
pub open spec fn deposit_accepted(
    msg: DepositMsg,
    funds: Seq<Coin>,
    vault_info: VaultInfo,
    contract_addr: Seq<char>,
    holder_valid: bool,
) -> bool {
    &&& !(msg.amount0 == 0 && msg.amount1 == 0 && funds.len() == 0)
    &&& sent_amount(funds, vault_info.pair_id.0[0]@) == msg.amount0
    &&& sent_amount(funds, vault_info.pair_id.0[1]@) == msg.amount1
    &&& holder_valid
    &&& msg.to@ != contract_addr
    &&& (msg.amount0 > MIN_LIQUIDITY || msg.amount1 > MIN_LIQUIDITY)
}

/// The inputs on which an accepted deposit completes: its shares can be
/// computed and are not zero, the known funds and the share supply do not
/// overflow.
pub open spec fn deposit_completes(msg: DepositMsg, total0: u128, total1: u128, total_supply: u128, funds_info: FundsInfo) -> bool {
    let (shares, used0, used1) = query::shares_and_usable(msg.amount0 as nat, msg.amount1 as nat, total0 as nat, total1 as nat, total_supply as nat);
    &&& query::shares_computable(msg.amount0 as nat, msg.amount1 as nat, total0 as nat, total1 as nat, total_supply as nat)
    &&& funds_info.available_balance0 + used0 <= u128::MAX
    &&& funds_info.available_balance1 + used1 <= u128::MAX
    &&& shares != 0
    &&& total_supply + (if total_supply == 0 { MIN_LIQUIDITY as nat } else { 0 }) + shares <= u128::MAX
}

/// The coins worth sending: those whose amount is not zero, in order.
pub open spec fn nonzero_coins(coins: Seq<Coin>) -> Seq<Coin> {
    coins.filter(|c: Coin| c.amount != 0)
}

/// Keeps the coins whose amount is not zero.
pub fn keep_nonzero(coins: Vec<Coin>) -> (r: Vec<Coin>)
    ensures
        r@ == nonzero_coins(coins@),
{
    let mut r: Vec<Coin> = Vec::new();
    let mut i: usize = 0;
    while i < coins.len()
        invariant
            i <= coins@.len(),
            r@ == nonzero_coins(coins@.take(i as int)),
        decreases coins@.len() - i,
    {
        proof {
            reveal_with_fuel(Seq::filter, 1);
            let t = coins@.take(i + 1);
            assert(t.drop_last() =~= coins@.take(i as int));
            assert(t.last() == coins@[i as int]);
        }
        if coins[i].amount != 0 {
            r.push(Coin { denom: coins[i].denom.clone(), amount: coins[i].amount });
        }
        i = i + 1;
    }
    assert(coins@.take(coins@.len() as int) =~= coins@);
    r
}

/// Deposits `(msg.amount0, msg.amount1)` sent with `funds` into a vault holding
/// `(total0, total1)` for `total_supply` shares. `holder_valid` tells whether
/// the chain accepts `msg.to` as an address. Refusals come in this order:
/// nothing sent; sent amounts differ from the announced ones; invalid holder;
/// holder is the vault; no amount above [`MIN_LIQUIDITY`]; used amounts below
/// the requested minimums. An accepted deposit mints the shares of
/// [`query::shares_and_usable`] (and [`MIN_LIQUIDITY`] to the vault itself on the
/// first deposit), adds the used amounts to the known funds and sends back
/// what was not used.
pub fn deposit(
    msg: DepositMsg,
    funds: &Vec<Coin>,
    vault_info: &VaultInfo,
    contract_addr: &String,
    holder_valid: bool,
    total0: u128,
    total1: u128,
    total_supply: u128,
    funds_info: &FundsInfo,
) -> (r: Result<DepositOutcome, DepositError>)
    requires
        deposit_accepted(msg, funds@, *vault_info, contract_addr@, holder_valid)
            ==> deposit_completes(msg, total0, total1, total_supply, *funds_info),
    ensures
        ({
            let got0 = sent_amount(funds@, vault_info.pair_id.0[0]@);
            let got1 = sent_amount(funds@, vault_info.pair_id.0[1]@);
            let (shares, used0, used1) = query::shares_and_usable(msg.amount0 as nat, msg.amount1 as nat, total0 as nat, total1 as nat, total_supply as nat);
            if msg.amount0 == 0 && msg.amount1 == 0 && funds@.len() == 0 {
                r == Err::<DepositOutcome, _>(DepositError::ZeroTokensSent {})
            } else if got0 != msg.amount0 || got1 != msg.amount1 {
                r matches Err(DepositError::ImproperSentAmounts { expected, got })
                    && expected@ == text::pair_text(msg.amount0 as nat, msg.amount1 as nat)
                    && got@ == text::pair_text(got0 as nat, got1 as nat)
            } else if !holder_valid {
                r == Err::<DepositOutcome, _>(DepositError::InvalidShareholderAddress(msg.to))
            } else if msg.to@ == contract_addr@ {
                r matches Err(DepositError::ShareholderCantBeContract(h)) && h@ == msg.to@
            } else if !(msg.amount0 > MIN_LIQUIDITY || msg.amount1 > MIN_LIQUIDITY) {
                r matches Err(DepositError::DepositedAmountBelowMinLiquidity { min_liquidity, got })
                    && min_liquidity@ == text::nat_text(MIN_LIQUIDITY as nat)
                    && got@ == text::pair_text(msg.amount0 as nat, msg.amount1 as nat)
            } else if used0 < msg.amount0_min || used1 < msg.amount1_min {
                r matches Err(DepositError::DepositedAmountsBelowMin { used, wanted })
                    && used@ == text::pair_text(used0, used1)
                    && wanted@ == text::pair_text(msg.amount0_min as nat, msg.amount1_min as nat)
            } else {
                r matches Ok(o)
                    && o.shares == shares && o.holder == msg.to
                    && o.min_mint == (if total_supply == 0 { MIN_LIQUIDITY } else { 0 })
                    && o.funds_info.available_balance0 == funds_info.available_balance0 + used0
                    && o.funds_info.available_balance1 == funds_info.available_balance1 + used1
                    && o.refund@ == nonzero_coins(seq![
                        Coin { denom: vault_info.pair_id.0[0], amount: (msg.amount0 - used0) as u128 },
                        Coin { denom: vault_info.pair_id.0[1], amount: (msg.amount1 - used1) as u128 },
                    ])
                    && used0 <= msg.amount0 && used1 <= msg.amount1
            }
        }),
{
    let (denom0, denom1) = vault_info.denoms();
    if msg.amount0 == 0 && msg.amount1 == 0 && funds.len() == 0 {
        return Err(DepositError::ZeroTokensSent {});
    }
    let got0 = find_sent_amount(funds, &denom0);
    let got1 = find_sent_amount(funds, &denom1);
    if got0 != msg.amount0 || got1 != msg.amount1 {
        return Err(DepositError::ImproperSentAmounts {
            expected: u128_pair_text(msg.amount0, msg.amount1),
            got: u128_pair_text(got0, got1),
        });
    }
    if !holder_valid {
        return Err(DepositError::InvalidShareholderAddress(msg.to));
    }
    if msg.to.eq(contract_addr) {
        return Err(DepositError::ShareholderCantBeContract(msg.to));
    }
    if !(msg.amount0 > MIN_LIQUIDITY || msg.amount1 > MIN_LIQUIDITY) {
        return Err(DepositError::DepositedAmountBelowMinLiquidity {
            min_liquidity: u128_text(MIN_LIQUIDITY),
            got: u128_pair_text(msg.amount0, msg.amount1),
        });
    }
    let calc = calc_shares_and_usable_amounts(msg.amount0, msg.amount1, total0, total1, total_supply);
    let new_funds = FundsInfo {
        available_balance0: funds_info.available_balance0 + calc.usable_amount0,
        available_balance1: funds_info.available_balance1 + calc.usable_amount1,
    };
    if calc.usable_amount0 < msg.amount0_min || calc.usable_amount1 < msg.amount1_min {
        return Err(DepositError::DepositedAmountsBelowMin {
            used: u128_pair_text(calc.usable_amount0, calc.usable_amount1),
            wanted: u128_pair_text(msg.amount0_min, msg.amount1_min),
        });
    }
    let min_mint = if total_supply == 0 { MIN_LIQUIDITY } else { 0 };
    let unused0 = msg.amount0 - calc.usable_amount0;
    let unused1 = msg.amount1 - calc.usable_amount1;
    let refund = keep_nonzero(vec![Coin { denom: denom0, amount: unused0 }, Coin { denom: denom1, amount: unused1 }]);
    Ok(DepositOutcome { funds_info: new_funds, min_mint, holder: msg.to, shares: calc.shares, refund })
}

/// What a withdrawal does.
#[derive(Clone, Debug, PartialEq, Eq)]
pub struct WithdrawalOutcome {
    /// Fees, with the unclaimed fees now owed to the protocol and the admin.
    pub fees_info: FeesInfo,
    /// Known funds, reduced by the withdrawn proportion.
    pub funds_info: FundsInfo,
    /// Withdrawn shares over all shares.
    pub shares_proportion: Weight,
    /// The dex withdrawals of that proportion of each open position.
    pub removals: Vec<WithdrawalWithShares>,
    /// The state, with all positions closed when every share is withdrawn.
    pub vault_state: VaultState,
    /// Shares burnt from the sender.
    pub burn: u128,
    /// Where the tokens go.
    pub recipient: String,
    /// Tokens sent (those not zero), token0 first.
    pub payout: Vec<Coin>,
    pub amount0: u128,
    pub amount1: u128,
}

/// The checks a withdrawal passes before any amount is computed: shares are
/// withdrawn, to a valid address other than the vault.
pub open spec fn withdrawal_addressed(msg: WithdrawMsg, contract_addr: Seq<char>, to_valid: bool) -> bool {
    msg.shares != 0 && to_valid && msg.to@ != contract_addr
}

/// The positions' shares read as integers, as removing a proportion of them requires.
pub open spec fn positions_readable(vault_state: VaultState) -> bool {
    &&& (vault_state.full_range_position_shares matches Some(v) ==> duality_helpers::shares_readable(v@))
    &&& (vault_state.base_position_shares matches Some(v) ==> duality_helpers::shares_readable(v@))
    &&& (vault_state.limit_position_shares matches Some(v) ==> duality_helpers::shares_readable(v@))
}

/// The inputs on which an addressed withdrawal completes: the fees owed do
/// not overflow; a withdrawal of owned shares withdraws at most all shares
/// (the token never lets an account own more than the supply) from positions
/// whose shares read as integers.
pub open spec fn withdrawal_completes(
    msg: WithdrawMsg,
    total_supply: u128,
    shares_held: u128,
    balances: VaultBalancesResponse,
    vault_state: VaultState,
    fees_info: FeesInfo,
) -> bool {
    &&& fees_info.protocol_tokens0_owned + balances.protocol_unclaimed_fees0 <= u128::MAX
    &&& fees_info.protocol_tokens1_owned + balances.protocol_unclaimed_fees1 <= u128::MAX
    &&& fees_info.admin_tokens0_owned + balances.admin_unclaimed_fees0 <= u128::MAX
    &&& fees_info.admin_tokens1_owned + balances.admin_unclaimed_fees1 <= u128::MAX
    &&& msg.shares <= shares_held ==> msg.shares <= total_supply && positions_readable(vault_state)
}

/// Withdrawn shares over all shares, as a 27-decimal weight's atomics.
pub open spec fn withdrawn_proportion(shares: nat, total_supply: nat) -> nat {
    math::prec_div_value(shares, total_supply)
}

/// The part of `amount` a proportion `w` stands for, rounded down.
pub open spec fn proportion_of(amount: nat, w: nat) -> nat {
    math::prec_mul_value(amount, w)
}

/// Withdraws `msg.shares` of the sender, who holds `shares_held` of
/// `total_supply`, from a vault whose balances are `balances`. `to_valid`
/// tells whether the chain accepts `msg.to` as an address. Refusals come in
/// this order: zero shares; invalid address; the address is the vault; more
/// shares than held; amounts below the requested minimums. The sender
/// receives the withdrawn proportion of each balance, rounded down; the same
/// proportion leaves the known funds and each open position; the unclaimed
/// fees become owed to the protocol and the admin.
#[verifier::rlimit(40)]
pub fn withdraw(
    msg: WithdrawMsg,
    contract_addr: &String,
    to_valid: bool,
    total_supply: u128,
    shares_held: u128,
    balances: &VaultBalancesResponse,
    vault_info: &VaultInfo,
    vault_state: VaultState,
    fees_info: &FeesInfo,
    funds_info: &FundsInfo,
) -> (r: Result<WithdrawalOutcome, WithdrawalError>)
    requires
        withdrawal_addressed(msg, contract_addr@, to_valid)
            ==> withdrawal_completes(msg, total_supply, shares_held, *balances, vault_state, *fees_info),
    ensures
        ({
            let w = withdrawn_proportion(msg.shares as nat, total_supply as nat);
            let out0 = proportion_of(balances.bal0 as nat, w);
            let out1 = proportion_of(balances.bal1 as nat, w);
            if msg.shares == 0 {
                r == Err::<WithdrawalOutcome, _>(WithdrawalError::ZeroSharesWithdrawal {})
            } else if !to_valid {
                r == Err::<WithdrawalOutcome, _>(WithdrawalError::InvalidWithdrawalAddress(msg.to))
            } else if msg.to@ == contract_addr@ {
                r matches Err(WithdrawalError::CantWithdrawToContract(a)) && a@ == msg.to@
            } else if msg.shares > shares_held {
                r matches Err(WithdrawalError::InvalidWithdrawalAmount { owned, withdrawn })
                    && owned@ == text::nat_text(shares_held as nat)
                    && withdrawn@ == text::nat_text(msg.shares as nat)
            } else if out0 < msg.amount0_min || out1 < msg.amount1_min {
                r matches Err(WithdrawalError::WithdrawnAmontsBelowMin { got, wanted })
                    && got@ == text::pair_text(out0, out1)
                    && wanted@ == text::pair_text(msg.amount0_min as nat, msg.amount1_min as nat)
            } else {
                r matches Ok(o)
                    && o.shares_proportion.0@ == w && o.shares_proportion.wf()
                    && o.amount0 == out0 && o.amount1 == out1
                    && out0 <= balances.bal0 && out1 <= balances.bal1
                    && o.burn == msg.shares && o.recipient == msg.to
                    && o.payout@ == nonzero_coins(seq![
                        Coin { denom: vault_info.pair_id.0[0], amount: o.amount0 },
                        Coin { denom: vault_info.pair_id.0[1], amount: o.amount1 },
                    ])
                    && o.funds_info.available_balance0 == funds_info.available_balance0 - proportion_of(funds_info.available_balance0 as nat, w)
                    && o.funds_info.available_balance1 == funds_info.available_balance1 - proportion_of(funds_info.available_balance1 as nat, w)
                    && o.fees_info == (FeesInfo {
                        protocol_tokens0_owned: (fees_info.protocol_tokens0_owned + balances.protocol_unclaimed_fees0) as u128,
                        protocol_tokens1_owned: (fees_info.protocol_tokens1_owned + balances.protocol_unclaimed_fees1) as u128,
                        admin_tokens0_owned: (fees_info.admin_tokens0_owned + balances.admin_unclaimed_fees0) as u128,
                        admin_tokens1_owned: (fees_info.admin_tokens1_owned + balances.admin_unclaimed_fees1) as u128,
                        ..*fees_info
                    })
                    && (w == math::prec_one() ==> o.vault_state == (VaultState {
                        full_range_position_shares: None,
                        base_position_shares: None,
                        limit_position_shares: None,
                        last_price_and_timestamp: vault_state.last_price_and_timestamp,
                    }))
                    && (w != math::prec_one() ==> o.vault_state == vault_state)
                    && duality_helpers::removals_views(o.removals@) == duality_helpers::removals_for(vault_state, w)
            }
        }),
{
    if msg.shares == 0 {
        return Err(WithdrawalError::ZeroSharesWithdrawal {});
    }
    if !to_valid {
        return Err(WithdrawalError::InvalidWithdrawalAddress(msg.to));
    }
    if msg.to.eq(contract_addr) {
        return Err(WithdrawalError::CantWithdrawToContract(msg.to));
    }
    let new_fees = FeesInfo {
        protocol_tokens0_owned: fees_info.protocol_tokens0_owned + balances.protocol_unclaimed_fees0,
        protocol_tokens1_owned: fees_info.protocol_tokens1_owned + balances.protocol_unclaimed_fees1,
        admin_tokens0_owned: fees_info.admin_tokens0_owned + balances.admin_unclaimed_fees0,
        admin_tokens1_owned: fees_info.admin_tokens1_owned + balances.admin_unclaimed_fees1,
        ..*fees_info
    };
    if msg.shares > shares_held {
        return Err(WithdrawalError::InvalidWithdrawalAmount {
            owned: u128_text(shares_held),
            withdrawn: u128_text(msg.shares),
        });
    }
    proof {
        assert(math::prec_div_value(msg.shares as nat, total_supply as nat) <= math::prec_one()) by {
            math::lemma_scale_le(math::prec_one(), msg.shares as nat, total_supply as nat);
            vstd::arithmetic::mul::lemma_mul_is_commutative(msg.shares as int, math::prec_one() as int);
        }
        assert(math::prec_one() < math::u256_limit());
    }
    let supply = Dec27::raw(total_supply);
    let ratio = Dec27::raw(msg.shares).checked_div(&supply).unwrap();
    let shares_proportion = Weight::try_from(ratio).unwrap();
    let amount0 = u256_to_u128(&shares_proportion.mul_raw(balances.bal0).atomics).unwrap();
    let amount1 = u256_to_u128(&shares_proportion.mul_raw(balances.bal1).atomics).unwrap();
    let cut0 = u256_to_u128(&shares_proportion.mul_raw(funds_info.available_balance0).atomics).unwrap();
    let cut1 = u256_to_u128(&shares_proportion.mul_raw(funds_info.available_balance1).atomics).unwrap();
    let new_funds = FundsInfo {
        available_balance0: funds_info.available_balance0 - cut0,
        available_balance1: funds_info.available_balance1 - cut1,
    };
    if amount0 < msg.amount0_min || amount1 < msg.amount1_min {
        return Err(WithdrawalError::WithdrawnAmontsBelowMin {
            got: u128_pair_text(amount0, amount1),
            wanted: u128_pair_text(msg.amount0_min, msg.amount1_min),
        });
    }
    let removals = duality_helpers::remove_liquidity_msgs(&vault_state, contract_addr, &shares_proportion);
    let new_state = if shares_proportion.is_max() {
        VaultState {
            full_range_position_shares: None,
            base_position_shares: None,
            limit_position_shares: None,
            last_price_and_timestamp: vault_state.last_price_and_timestamp,
        }
    } else {
        vault_state
    };
    let (denom0, denom1) = vault_info.denoms();
    let payout = keep_nonzero(vec![Coin { denom: denom0, amount: amount0 }, Coin { denom: denom1, amount: amount1 }]);
    Ok(WithdrawalOutcome {
        fees_info: new_fees,
        funds_info: new_funds,
        shares_proportion,
        removals,
        vault_state: new_state,
        burn: msg.shares,
        recipient: msg.to,
        payout,
        amount0,
        amount1,
    })
}

/// Withdrawing every share takes the whole balances and closes every position.
pub proof fn lemma_full_withdrawal_takes_everything(total_supply: nat, bal0: nat, bal1: nat)
    requires
        total_supply > 0,
    ensures
        withdrawn_proportion(total_supply, total_supply) == math::prec_one(),
        proportion_of(bal0, math::prec_one()) == bal0,
        proportion_of(bal1, math::prec_one()) == bal1,
{
    vstd::arithmetic::mul::lemma_mul_is_commutative(total_supply as int, math::prec_one() as int);
    math::lemma_scale_one(math::prec_one(), total_supply);
    math::lemma_scale_one(bal0, math::prec_one());
    math::lemma_scale_one(bal1, math::prec_one());
}

/// A withdrawal never pays out more than the balances, and takes out of the
/// known funds exactly the proportion it pays.
pub proof fn lemma_withdrawal_bounded(shares: nat, total_supply: nat, amount: nat)
    requires
        0 < shares <= total_supply,
    ensures
        withdrawn_proportion(shares, total_supply) <= math::prec_one(),
        proportion_of(amount, withdrawn_proportion(shares, total_supply)) <= amount,
{
    math::lemma_scale_le(math::prec_one(), shares, total_supply);
    vstd::arithmetic::mul::lemma_mul_is_commutative(shares as int, math::prec_one() as int);
    math::lemma_scale_le(amount, withdrawn_proportion(shares, total_supply), math::prec_one());
}

/// A withdrawal of `shares` out of `total_supply` pays out that share of a
/// balance up to rounding: short of `amount * shares / total_supply` by less
/// than one unit plus `amount / 10^27` (the share is first rounded down to
/// 27 decimals, then the payout).
pub proof fn lemma_withdrawal_pays_the_share(shares: nat, total_supply: nat, amount: nat)
    requires
        0 < shares <= total_supply,
    ensures
        ({
            let out = proportion_of(amount, withdrawn_proportion(shares, total_supply));
            amount * shares * 1_000_000_000_000_000_000_000_000_000nat
                < (out + 1) * total_supply * 1_000_000_000_000_000_000_000_000_000nat + amount * total_supply
        }),
{
    let one: nat = math::prec_one();
    let w = withdrawn_proportion(shares, total_supply);
    let out = proportion_of(amount, w);
    query::lemma_floor_div_brackets(shares * one, total_supply);
    query::lemma_floor_div_brackets(amount * w, one);
    assert(shares * one < (w + 1) * total_supply);
    assert(amount * w < (out + 1) * one);
    assert(amount * (shares * one) <= amount * ((w + 1) * total_supply)) by (nonlinear_arith)
        requires
            shares * one < (w + 1) * total_supply,
    ;
    assert(amount * w * total_supply < (out + 1) * one * total_supply) by (nonlinear_arith)
        requires
            amount * w < (out + 1) * one,
            total_supply > 0,
    ;
    assert(amount * shares * one < (out + 1) * total_supply * one + amount * total_supply) by (nonlinear_arith)
        requires
            amount * (shares * one) <= amount * ((w + 1) * total_supply),
            amount * w * total_supply < (out + 1) * one * total_supply,
    ;
}

/// A withdrawal of `shares` out of `total_supply` pays out no more than that
/// share of a balance: the shareholders who stay lose nothing.
pub proof fn lemma_withdrawal_within_share(shares: nat, total_supply: nat, amount: nat)
    requires
        0 < shares <= total_supply,
    ensures
        proportion_of(amount, withdrawn_proportion(shares, total_supply)) * total_supply <= shares * amount,
{
    let one = math::prec_one();
    let w = withdrawn_proportion(shares, total_supply);
    let out = proportion_of(amount, w);
    vstd::arithmetic::div_mod::lemma_fundamental_div_mod((shares * one) as int, total_supply as int);
    vstd::arithmetic::div_mod::lemma_mod_bound((shares * one) as int, total_supply as int);
    vstd::arithmetic::div_mod::lemma_fundamental_div_mod((amount * w) as int, one as int);
    vstd::arithmetic::div_mod::lemma_mod_bound((amount * w) as int, one as int);
    assert(w * total_supply <= shares * one);
    assert(out * one <= amount * w);
    assert(out * one * total_supply <= amount * w * total_supply) by (nonlinear_arith)
        requires
            out * one <= amount * w,
    ;
    assert(amount * w * total_supply <= amount * shares * one) by (nonlinear_arith)
        requires
            w * total_supply <= shares * one,
    ;
    assert(out * total_supply <= shares * amount) by (nonlinear_arith)
        requires
            out * one * total_supply <= amount * shares * one,
            one > 0,
    ;
}

/// Denomination and amount of each coin.
pub open spec fn coin_pairs(coins: Seq<Coin>) -> Seq<(Seq<char>, u128)> {
    coins.map_values(|c: Coin| (c.denom@, c.amount))
}

/// The pairs whose amount is not zero, in order.
pub open spec fn nonzero_pairs(pairs: Seq<(Seq<char>, u128)>) -> Seq<(Seq<char>, u128)> {
    pairs.filter(|p: (Seq<char>, u128)| p.1 != 0)
}

/// Keeping the coins that are not zero keeps exactly the pairs that are not zero.
proof fn lemma_coin_pairs_nonzero(coins: Seq<Coin>)
    ensures
        coin_pairs(nonzero_coins(coins)) == nonzero_pairs(coin_pairs(coins)),
    decreases coins.len(),
{
    reveal_with_fuel(Seq::filter, 1);
    if coins.len() > 0 {
        lemma_coin_pairs_nonzero(coins.drop_last());
        assert(coin_pairs(coins).drop_last() =~= coin_pairs(coins.drop_last()));
        let prev = nonzero_coins(coins.drop_last());
        assert(coin_pairs(prev.push(coins.last())) =~= coin_pairs(prev).push((coins.last().denom@, coins.last().amount)));
    } else {
        assert(coin_pairs(nonzero_coins(coins)) =~= nonzero_pairs(coin_pairs(coins)));
    }
}

/// Sends the protocol everything it is owed: both tokens and the creation
/// costs (the coins that are not zero), and owes it nothing afterwards. Only
/// the protocol account may do it.
pub fn withdraw_protocol_fees(fees: &FeesInfo, vault_info: &VaultInfo, sender: &String) -> (r: Result<(FeesInfo, Vec<Coin>), ProtocolOperationError>)
    ensures
        sender@ != PROTOCOL@ ==> (r matches Err(ProtocolOperationError::UnauthorizedProtocolAccount(op)) && op@ == "withdraw_protocol_fees"@),
        sender@ == PROTOCOL@ ==> (r matches Ok((f, sent))
            && f == (FeesInfo { protocol_tokens0_owned: 0, protocol_tokens1_owned: 0, protocol_vault_creation_tokens_owned: 0, ..*fees })
            && coin_pairs(sent@) == nonzero_pairs(seq![
                (vault_info.pair_id.0[0]@, fees.protocol_tokens0_owned),
                (vault_info.pair_id.0[1]@, fees.protocol_tokens1_owned),
                (VAULT_CREATION_COST_DENOM@, fees.protocol_vault_creation_tokens_owned),
            ])),
{
    let (denom0, denom1) = vault_info.denoms();
    if !sender.eq(&PROTOCOL.to_owned()) {
        return Err(ProtocolOperationError::UnauthorizedProtocolAccount("withdraw_protocol_fees".to_owned()));
    }
    let coins = vec![
        Coin { denom: denom0, amount: fees.protocol_tokens0_owned },
        Coin { denom: denom1, amount: fees.protocol_tokens1_owned },
        Coin { denom: VAULT_CREATION_COST_DENOM.to_owned(), amount: fees.protocol_vault_creation_tokens_owned },
    ];
    let ghost all = coins@;
    let sent = keep_nonzero(coins);
    proof {
        lemma_coin_pairs_nonzero(all);
        assert(coin_pairs(all) =~= seq![
            (vault_info.pair_id.0[0]@, fees.protocol_tokens0_owned),
            (vault_info.pair_id.0[1]@, fees.protocol_tokens1_owned),
            (VAULT_CREATION_COST_DENOM@, fees.protocol_vault_creation_tokens_owned),
        ]);
    }
    let f = FeesInfo { protocol_tokens0_owned: 0, protocol_tokens1_owned: 0, protocol_vault_creation_tokens_owned: 0, ..*fees };
    Ok((f, sent))
}

/// Sends the admin what it is owed in both tokens (the coins that are not
/// zero) and owes it nothing afterwards. Only the admin may do it, and only
/// a vault with an admin.
pub fn withdraw_admin_fees(fees: &FeesInfo, vault_info: &VaultInfo, sender: &String) -> (r: Result<(FeesInfo, String, Vec<Coin>), AdminOperationError>)
    ensures
        vault_info.admin is None ==> (r matches Err(AdminOperationError::NonExistantAdmin(op)) && op@ == "withdraw_admin_fees"@),
        vault_info.admin matches Some(a) && a@ != sender@ ==> (r matches Err(AdminOperationError::UnauthorizedAdminAccount(op)) && op@ == "withdraw_admin_fees"@),
        vault_info.admin matches Some(a) && a@ == sender@ ==> (r matches Ok((f, to, sent))
            && Some(to) == vault_info.admin
            && f == (FeesInfo { admin_tokens0_owned: 0, admin_tokens1_owned: 0, ..*fees })
            && coin_pairs(sent@) == nonzero_pairs(seq![
                (vault_info.pair_id.0[0]@, fees.admin_tokens0_owned),
                (vault_info.pair_id.0[1]@, fees.admin_tokens1_owned),
            ])),
{
    let (denom0, denom1) = vault_info.denoms();
    let admin = match &vault_info.admin {
        Some(a) => a.clone(),
        None => return Err(AdminOperationError::NonExistantAdmin("withdraw_admin_fees".to_owned())),
    };
    if !sender.eq(&admin) {
        return Err(AdminOperationError::UnauthorizedAdminAccount("withdraw_admin_fees".to_owned()));
    }
    let coins = vec![
        Coin { denom: denom0, amount: fees.admin_tokens0_owned },
        Coin { denom: denom1, amount: fees.admin_tokens1_owned },
    ];
    let ghost all = coins@;
    let sent = keep_nonzero(coins);
    proof {
        lemma_coin_pairs_nonzero(all);
        assert(coin_pairs(all) =~= seq![
            (vault_info.pair_id.0[0]@, fees.admin_tokens0_owned),
            (vault_info.pair_id.0[1]@, fees.admin_tokens1_owned),
        ]);
    }
    let f = FeesInfo { admin_tokens0_owned: 0, admin_tokens1_owned: 0, ..*fees };
    Ok((f, admin, sent))
}

/// The admin of a vault, when `sender` is it: `NonExistantAdmin(op)` for a
/// vault without admin, `UnauthorizedAdminAccount(op)` for anyone else.
fn check_admin(vault_info: &VaultInfo, sender: &String, op: &str) -> (r: Result<(), AdminOperationError>)
    ensures
        vault_info.admin is None ==> (r matches Err(AdminOperationError::NonExistantAdmin(o)) && o@ == op@),
        vault_info.admin matches Some(a) && a@ != sender@ ==> (r matches Err(AdminOperationError::UnauthorizedAdminAccount(o)) && o@ == op@),
        vault_info.admin matches Some(a) && a@ == sender@ ==> r is Ok,
{
    match &vault_info.admin {
        None => Err(AdminOperationError::NonExistantAdmin(op.to_owned())),
        Some(a) => if sender.eq(a) {
            Ok(())
        } else {
            Err(AdminOperationError::UnauthorizedAdminAccount(op.to_owned()))
        },
    }
}

/// The sender is the vault's admin.
pub open spec fn is_admin(vault_info: VaultInfo, sender: Seq<char>) -> bool {
    vault_info.admin matches Some(a) && a@ == sender
}

/// Replaces the vault's governance. Only the admin may do it; the pair, the
/// name and the symbol cannot change; the new identity is checked as at
/// creation (`admin_valid` and `delegate_valid` tell whether the chain accepts
/// the new admin and delegate). Dropping the admin is refused while admin fees
/// are owed, and sets the admin fee to zero (the new fees are returned then).
pub fn change_vault_info(
    new_vault_info: VaultInfoInstantiateMsg,
    current_vault_info: &VaultInfo,
    token_name: &String,
    token_symbol: &String,
    fees: &FeesInfo,
    sender: &String,
    admin_valid: bool,
    delegate_valid: bool,
) -> (r: Result<(VaultInfo, Option<FeesInfo>), AdminOperationError>)
    ensures
        current_vault_info.admin is None ==> (r matches Err(AdminOperationError::NonExistantAdmin(o)) && o@ == "change_vault_info"@),
        current_vault_info.admin matches Some(a) && a@ != sender@ ==> (r matches Err(AdminOperationError::UnauthorizedAdminAccount(o)) && o@ == "change_vault_info"@),
        is_admin(*current_vault_info, sender@) ==> {
            let pair = state::sorted_pair(new_vault_info.token_0@, new_vault_info.token_1@);
            let same_pair = pair.0 == current_vault_info.pair_id.0[0]@ && pair.1 == current_vault_info.pair_id.0[1]@;
            if !same_pair {
                r matches Err(AdminOperationError::ImmutableReInstantiation(f)) && f@ == "pool_id"@
            } else if new_vault_info.vault_name@ != token_name@ {
                r matches Err(AdminOperationError::ImmutableReInstantiation(f)) && f@ == "vault_name"@
            } else if new_vault_info.vault_symbol@ != token_symbol@ {
                r matches Err(AdminOperationError::ImmutableReInstantiation(f)) && f@ == "vault_symbol"@
            } else if !state::vault_info_accepted(new_vault_info, admin_valid, delegate_valid) {
                r matches Err(AdminOperationError::ReInstantiation(e))
                    && state::vault_info_outcome(new_vault_info, admin_valid, delegate_valid, Err(e))
            } else if new_vault_info.admin is None && (fees.admin_tokens0_owned != 0 || fees.admin_tokens1_owned != 0) {
                r == Err::<(VaultInfo, Option<FeesInfo>), _>(AdminOperationError::RemovingAdminWithUncollectedAdminFees())
            } else {
                r matches Ok((v, new_fees))
                    && state::vault_info_outcome(new_vault_info, admin_valid, delegate_valid, Ok(v))
                    && v.wf()
                    && (new_vault_info.admin is Some ==> new_fees is None)
                    && (new_vault_info.admin is None ==> new_fees == Some(FeesInfo { admin_fee: new_fees.unwrap().admin_fee, ..*fees })
                        && new_fees.unwrap().admin_fee.0.0@ == 0)
            }
        },
{
    check_admin(current_vault_info, sender, "change_vault_info")?;
    let new_pair = PairId::new([new_vault_info.token_0.clone(), new_vault_info.token_1.clone()]).unwrap();
    if !(new_pair.0[0].eq(&current_vault_info.pair_id.0[0]) && new_pair.0[1].eq(&current_vault_info.pair_id.0[1])) {
        return Err(AdminOperationError::ImmutableReInstantiation("pool_id".to_owned()));
    }
    if !new_vault_info.vault_name.eq(token_name) {
        return Err(AdminOperationError::ImmutableReInstantiation("vault_name".to_owned()));
    }
    if !new_vault_info.vault_symbol.eq(token_symbol) {
        return Err(AdminOperationError::ImmutableReInstantiation("vault_symbol".to_owned()));
    }
    let info = match VaultInfo::new(new_vault_info, admin_valid, delegate_valid) {
        Ok(v) => v,
        Err(e) => return Err(AdminOperationError::ReInstantiation(e)),
    };
    if info.admin.is_none() {
        if fees.admin_tokens0_owned != 0 || fees.admin_tokens1_owned != 0 {
            return Err(AdminOperationError::RemovingAdminWithUncollectedAdminFees());
        }
        let f = FeesInfo { admin_fee: ProtocolFee::zero(), ..*fees };
        return Ok((info, Some(f)));
    }
    Ok((info, None))
}

/// Replaces the vault's parameters, checked as at creation. Only the admin may do it.
pub fn change_vault_parameters(new_vault_parameters: VaultParametersInstantiateMsg, vault_info: &VaultInfo, sender: &String) -> (r: Result<VaultParameters, AdminOperationError>)
    ensures
        vault_info.admin is None ==> (r matches Err(AdminOperationError::NonExistantAdmin(o)) && o@ == "change_vault_parameters"@),
        vault_info.admin matches Some(a) && a@ != sender@ ==> (r matches Err(AdminOperationError::UnauthorizedAdminAccount(o)) && o@ == "change_vault_parameters"@),
        is_admin(*vault_info, sender@) ==> match r {
            Ok(p) => state::vault_parameters_outcome(new_vault_parameters, Ok(p)),
            Err(AdminOperationError::ReInstantiation(e)) => state::vault_parameters_outcome(new_vault_parameters, Err(e)),
            Err(_) => false,
        },
{
    check_admin(vault_info, sender, "change_vault_parameters")?;
    match VaultParameters::new(new_vault_parameters) {
        Ok(p) => Ok(p),
        Err(e) => Err(AdminOperationError::ReInstantiation(e)),
    }
}

/// Replaces the admin fee, read and checked as at creation. Only the admin may do it.
pub fn change_admin_fee(new_admin_fee: String, vault_info: &VaultInfo, fees: &FeesInfo, sender: &String) -> (r: Result<FeesInfo, AdminOperationError>)
    ensures
        vault_info.admin is None ==> (r matches Err(AdminOperationError::NonExistantAdmin(o)) && o@ == "change_admin_fee"@),
        vault_info.admin matches Some(a) && a@ != sender@ ==> (r matches Err(AdminOperationError::UnauthorizedAdminAccount(o)) && o@ == "change_admin_fee"@),
        is_admin(*vault_info, sender@) ==> match state::fee_parse(new_admin_fee@) {
            None => r matches Err(AdminOperationError::ReInstantiation(InstantiationError::InvalidAdminFee { max, got }))
                && max@ == "0.1"@ && got == new_admin_fee,
            Some(v) => r matches Ok(f) && f.admin_fee.0.0@ == v && f.admin_fee.wf() && f == (FeesInfo { admin_fee: f.admin_fee, ..*fees }),
        },
{
    check_admin(vault_info, sender, "change_admin_fee")?;
    match fees.update_admin_fee(new_admin_fee, vault_info) {
        Ok(f) => Ok(f),
        Err(e) => Err(AdminOperationError::ReInstantiation(e)),
    }
}

/// Replaces the protocol fee, which must read as a fee. Only the protocol may do it.
pub fn change_protocol_fee(new_protocol_fee: String, fees: &FeesInfo, sender: &String) -> (r: Result<FeesInfo, ProtocolOperationError>)
    ensures
        sender@ != PROTOCOL@ ==> (r matches Err(ProtocolOperationError::UnauthorizedProtocolAccount(o)) && o@ == "withdraw_protocol_fees"@),
        sender@ == PROTOCOL@ ==> match state::fee_parse(new_protocol_fee@) {
            None => r matches Err(ProtocolOperationError::InvalidProtocolFee { max, got }) && max@ == "0.1"@ && got == new_protocol_fee,
            Some(v) => r matches Ok(f) && f.protocol_fee.0.0@ == v && f == (FeesInfo { protocol_fee: f.protocol_fee, ..*fees }),
        },
{
    if !sender.eq(&PROTOCOL.to_owned()) {
        return Err(ProtocolOperationError::UnauthorizedProtocolAccount("withdraw_protocol_fees".to_owned()));
    }
    fees.update_protocol_fee(new_protocol_fee)
}


/// Nanoseconds in a second.
pub open spec fn second_nanos() -> nat {
    1_000_000_000
}

/// The moment, in nanoseconds, at which the wait after a rebalance at `last`
/// ends.
pub open spec fn wait_end(last: u64, wait_seconds: u64) -> nat {
    last as nat + wait_seconds as nat * second_nanos()
}

/// The highest price (in atomics) that has not moved enough up from `last`
/// for a factor `factor` (18-decimal atomics): `last * factor` (capped at the
/// largest number) less one atomic.
pub open spec fn unmoved_upper(last: nat, factor: nat) -> nat {
    let m = math::prec_mul_value(last, factor * 1_000_000_000);
    let capped = if m < math::u256_limit() { m } else { (math::u256_limit() - 1) as nat };
    if capped >= 1 { (capped - 1) as nat } else { 0 }
}

/// The lowest price (in atomics) that has not moved enough down from `last`:
/// `last / factor` plus one atomic (capped at the largest number).
pub open spec fn unmoved_lower(last: nat, factor: nat) -> nat {
    let d = math::prec_div_value(last, factor * 1_000_000_000);
    if d + 1 < math::u256_limit() { d + 1 } else { (math::u256_limit() - 1) as nat }
}

/// One percent of the average price, rounded down.
pub open spec fn twap_variation(twap: nat) -> nat {
    math::prec_mul_value(twap, 10_000_000_000_000_000_000_000_000)
}

/// The highest price accepted around the average price: one percent above it,
/// capped at the largest number.
pub open spec fn twap_high(twap: nat) -> nat {
    if twap + twap_variation(twap) < math::u256_limit() {
        twap + twap_variation(twap)
    } else {
        (math::u256_limit() - 1) as nat
    }
}

/// The lowest price accepted around the average price: one percent below it.
pub open spec fn twap_low(twap: nat) -> nat {
    (twap - twap_variation(twap)) as nat
}

/// The clock values on which checking a rebalance by anyone stays within
/// 64-bit time: the block time plus a second fits, the last rebalance is less
/// than a second ahead of the block, and the end of the wait fits.
pub open spec fn rebalance_clock_ok(rebalancer: VaultRebalancer, snapshot: Option<StateSnapshot>, now: u64) -> bool {
    match rebalancer {
        VaultRebalancer::Anyone { time_before_rabalance, .. } => match snapshot {
            Some(s) => {
                let end = wait_end(s.last_timestamp, time_before_rabalance);
                &&& now + second_nanos() <= u64::MAX
                &&& s.last_timestamp < now + second_nanos()
                &&& now != s.last_timestamp ==> {
                    &&& time_before_rabalance * second_nanos() <= u64::MAX
                    &&& end <= u64::MAX
                }
            },
            None => true,
        },
        _ => true,
    }
}

/// The average price a pool answered with, by value.
pub open spec fn twap_view(twap: Option<Dec27>) -> Option<nat> {
    match twap {
        Some(t) => Some(t@),
        None => None,
    }
}

/// Whether the clock values let a rebalance be checked within 64-bit time
/// (see [`rebalance_clock_ok`]): the test to make before calling
/// [`can_rebalance`].
pub fn rebalance_clock_fits(rebalancer: &VaultRebalancer, snapshot: &Option<StateSnapshot>, now: u64) -> (r: bool)
    ensures
        r == rebalance_clock_ok(*rebalancer, *snapshot, now),
{
    match (rebalancer, snapshot) {
        (VaultRebalancer::Anyone { time_before_rabalance, .. }, Some(s)) => {
            let next = match now.checked_add(1_000_000_000) {
                Some(v) => v,
                None => return false,
            };
            if !(s.last_timestamp < next) {
                return false;
            }
            if now == s.last_timestamp {
                return true;
            }
            let wait = match time_before_rabalance.checked_mul(1_000_000_000) {
                Some(v) => v,
                None => return false,
            };
            s.last_timestamp.checked_add(wait).is_some()
        },
        _ => true,
    }
}

/// Whether `sender` may rebalance at block time `now` (nanoseconds), for a
/// pair at `price` whose average price over the last minute is `twap` (`None`
/// when the pool is younger than that). The admin, or the delegate, must be
/// the sender. When anyone may rebalance and the vault was rebalanced before:
/// not twice in a block, not before the wait is over, not while the price
/// stays within the factor of the last price, and not while the price is
/// more than one percent away from the average.
pub open spec fn rebalance_permitted(
    vault_info: VaultInfo,
    vault_state: VaultState,
    price: nat,
    twap: Option<nat>,
    sender: Seq<char>,
    now: u64,
) -> bool {
    match twap {
        None => false,
        Some(t) => match vault_info.rebalancer {
            VaultRebalancer::Admin {} => vault_info.admin.unwrap()@ == sender,
            VaultRebalancer::Delegate { rebalancer } => rebalancer@ == sender,
            VaultRebalancer::Anyone { price_factor_before_rebalance: f, time_before_rabalance: wait } =>
                match vault_state.last_price_and_timestamp {
                    None => true,
                    Some(s) => {
                        &&& now != s.last_timestamp
                        &&& wait_end(s.last_timestamp, wait) <= now
                        &&& !(unmoved_lower(s.last_price@, f.0 as nat) <= price <= unmoved_upper(s.last_price@, f.0 as nat))
                        &&& twap_low(t) <= price <= twap_high(t)
                    },
                },
        },
    }
}

/// The answer to a rebalance that is not permitted, by the first check it
/// fails: a pool without an average; a sender that is not the admin, or not
/// the delegate; a second rebalance in the block; a wait not over (with the
/// whole seconds left: the second at which it ends less the block's second);
/// a price that has not moved enough (with the price and the factor); a price
/// too far from the average (with both prices).
pub open spec fn rebalance_refusal(
    vault_info: VaultInfo,
    vault_state: VaultState,
    price: nat,
    twap: Option<nat>,
    sender: Seq<char>,
    now: u64,
    e: RebalanceError,
) -> bool {
    match twap {
        None => e == RebalanceError::PoolWasJustCreated(),
        Some(t) => match vault_info.rebalancer {
            VaultRebalancer::Admin {} => (e matches RebalanceError::UnauthorhizedNonAdminAccount { admin, got }
                && admin@ == vault_info.admin.unwrap()@ && got@ == sender),
            VaultRebalancer::Delegate { rebalancer } => (e matches RebalanceError::UnauthorizedDelegateAccount { delegate, got }
                && delegate@ == rebalancer@ && got@ == sender),
            VaultRebalancer::Anyone { price_factor_before_rebalance: f, time_before_rabalance: wait } =>
                match vault_state.last_price_and_timestamp {
                    None => false,
                    Some(s) => {
                        let end = wait_end(s.last_timestamp, wait);
                        let lower = unmoved_lower(s.last_price@, f.0 as nat);
                        let upper = unmoved_upper(s.last_price@, f.0 as nat);
                        if now == s.last_timestamp {
                            e == RebalanceError::CantRebalanceTwicePerBlock()
                        } else if end > now {
                            e == RebalanceError::NotEnoughTimePassed {
                                time_left: (end / second_nanos() - now as nat / second_nanos()) as u64,
                            }
                        } else if lower <= price <= upper {
                            (e matches RebalanceError::PriceHasntMovedEnough { price: p, factor: k }
                                && p@ == text::fixed_text(price, 27) && k@ == text::fixed_text(f.0 as nat, 18))
                        } else {
                            (e matches RebalanceError::PriceMovedTooMuchInLastMinute { price: p, twap: a }
                                && p@ == text::fixed_text(price, 27) && a@ == text::fixed_text(t, 27))
                        }
                    },
                },
        },
    }
}

/// Checks whether `sender` may rebalance now: see [`rebalance_permitted`] and,
/// for the answer when not, [`rebalance_refusal`]. The pool's age is checked
/// first.
pub fn can_rebalance(
    vault_info: &VaultInfo,
    vault_state: &VaultState,
    price: &Dec27,
    twap: Option<Dec27>,
    sender: &String,
    now: u64,
) -> (r: Result<(), RebalanceError>)
    requires
        vault_info.wf(),
        twap is Some ==> rebalance_clock_ok(vault_info.rebalancer, vault_state.last_price_and_timestamp, now),
    ensures
        r is Ok <==> rebalance_permitted(*vault_info, *vault_state, price@, twap_view(twap), sender@, now),
        r matches Err(e) ==> rebalance_refusal(*vault_info, *vault_state, price@, twap_view(twap), sender@, now, e),
{
    let twap_price = match twap {
        Some(t) => t,
        None => return Err(RebalanceError::PoolWasJustCreated()),
    };
    match &vault_info.rebalancer {
        VaultRebalancer::Admin {} => {
            if let Some(admin) = &vault_info.admin {
                if !admin.eq(sender) {
                    return Err(RebalanceError::UnauthorhizedNonAdminAccount { admin: admin.clone(), got: sender.clone() });
                }
            }
        },
        VaultRebalancer::Delegate { rebalancer } => {
            if !rebalancer.eq(sender) {
                return Err(RebalanceError::UnauthorizedDelegateAccount { delegate: rebalancer.clone(), got: sender.clone() });
            }
        },
        VaultRebalancer::Anyone { price_factor_before_rebalance, time_before_rabalance } => {
            if let Some(snapshot) = vault_state.last_price_and_timestamp {
                if now == snapshot.last_timestamp {
                    return Err(RebalanceError::CantRebalanceTwicePerBlock());
                }
                let threshold = snapshot.last_timestamp + *time_before_rabalance * 1_000_000_000;
                if threshold > now {
                    let time_left = threshold / 1_000_000_000 - now / 1_000_000_000;
                    return Err(RebalanceError::NotEnoughTimePassed { time_left });
                }
                let factor = price_factor_before_rebalance.to_dec27();
                let upper_bound = match snapshot.last_price.checked_mul(&factor) {
                    Some(v) => v,
                    None => Dec27::max(),
                };
                let upper_bound = match upper_bound.checked_sub(&Dec27::raw(1)) {
                    Some(v) => v,
                    None => Dec27::zero(),
                };
                proof {
                    assert(factor@ >= math::prec_one());
                    assert(math::prec_div_value(snapshot.last_price@, factor@) <= snapshot.last_price@) by {
                        math::lemma_scale_le(snapshot.last_price@, math::prec_one(), factor@);
                    }
                    math::lemma_u256_bound(snapshot.last_price.atomics);
                }
                let lower_bound = snapshot.last_price.checked_div(&factor).unwrap();
                let lower_bound = match lower_bound.checked_add(&Dec27::raw(1)) {
                    Some(v) => v,
                    None => Dec27::max(),
                };
                if lower_bound.le(price) && price.le(&upper_bound) {
                    return Err(RebalanceError::PriceHasntMovedEnough {
                        price: price.to_string(),
                        factor: decimal_text(price_factor_before_rebalance.0),
                    });
                }
                let one_percent = Weight(Dec27::raw(10_000_000_000_000_000_000_000_000u128));
                let variation = one_percent.mul_dec(&twap_price);
                let max_twap = match twap_price.checked_add(&variation) {
                    Some(v) => v,
                    None => Dec27::max(),
                };
                let min_twap = twap_price.checked_sub(&variation).unwrap();
                if !(min_twap.le(price) && price.le(&max_twap)) {
                    return Err(RebalanceError::PriceMovedTooMuchInLastMinute {
                        price: price.to_string(),
                        twap: twap_price.to_string(),
                    });
                }
            }
        },
    }
    Ok(())
}

/// Where a position's range ends: a known tick, or the dex tick of a price.
#[derive(Clone, Copy, Debug, PartialEq, Eq)]
pub enum TickBound {
    Tick(i64),
    Price(Dec27),
}

/// A position a rebalance opens: its kind (which the reply to its deposit
/// names), its range and the amounts it takes.
#[derive(Clone, Copy, Debug, PartialEq, Eq)]
pub struct PositionPlan {
    pub position: PositionType,
    pub lower: TickBound,
    pub upper: TickBound,
    pub amount0: Dec27,
    pub amount1: Dec27,
}

/// What a rebalance does.
#[derive(Clone, Debug, PartialEq, Eq)]
pub struct RebalancePlan {
    /// Every position closed, and the price and time of this rebalance.
    pub vault_state: VaultState,
    /// Nothing left idle: every token goes into a position.
    pub funds_info: FundsInfo,
    /// Fees, with the unclaimed fees now owed to the protocol and the admin.
    pub fees_info: FeesInfo,
    /// The dex withdrawals of every open position, whole.
    pub removals: Vec<WithdrawalWithShares>,
    /// The positions to open, full range first, then base, then limit.
    pub positions: Vec<PositionPlan>,
}

/// A range end by value: `(true, tick, 0)` for a tick, `(false, 0, price)`
/// for a price.
pub open spec fn bound_view(b: TickBound) -> (bool, int, nat) {
    match b {
        TickBound::Tick(t) => (true, t as int, 0),
        TickBound::Price(p) => (false, 0, p@),
    }
}

/// A planned position by value: kind, both range ends, both amounts.
pub open spec fn position_view(p: PositionPlan) -> (PositionType, (bool, int, nat), (bool, int, nat), nat, nat) {
    (p.position, bound_view(p.lower), bound_view(p.upper), p.amount0@, p.amount1@)
}

/// Planned positions by value.
pub open spec fn positions_view(ps: Seq<PositionPlan>) -> Seq<(PositionType, (bool, int, nat), (bool, int, nat), nat, nat)> {
    ps.map_values(|p: PositionPlan| position_view(p))
}

/// The balanced part of the balances at price `p`: as much of both tokens as
/// trade for each other at that price, all of the scarcer one.
pub open spec fn balanced(bal0: nat, bal1: nat, p: nat) -> (nat, nat) {
    let b0 = math::prec_div_value(bal1, p);
    let b1 = math::prec_mul_value(bal0, p);
    if b0 > bal0 {
        (bal0, b1)
    } else {
        (b0, bal1)
    }
}

/// `p / factor` for an 18-decimal factor.
pub open spec fn div_factor(p: nat, factor: nat) -> nat {
    math::prec_div_value(p, factor * 1_000_000_000)
}

/// `p * factor` for an 18-decimal factor, capped at the largest number.
pub open spec fn capped_mul_factor(p: nat, factor: nat) -> nat {
    let m = math::prec_mul_value(p, factor * 1_000_000_000);
    if m < math::u256_limit() {
        m
    } else {
        (math::u256_limit() - 1) as nat
    }
}

/// The amounts of the full range position out of a balanced amount `b0` of
/// token0, at price `p`.
pub open spec fn full_range_amounts(params: VaultParameters, b0: nat, p: nat) -> (nat, nat) {
    let x0 = utils::x0_value(params.base_factor.0 as nat, params.full_range_weight.0@, b0).unwrap();
    (x0, math::prec_mul_value(x0, p))
}

/// The amounts of the base position: what the full range position leaves of
/// the balanced amounts; none when the base factor is one.
pub open spec fn base_amounts(params: VaultParameters, b0: nat, b1: nat, p: nat) -> (nat, nat) {
    if params.base_factor.0 == math::decimal_one() {
        (0, 0)
    } else {
        let f = full_range_amounts(params, b0, p);
        ((b0 - f.0) as nat, (b1 - f.1) as nat)
    }
}

/// The positions a rebalance opens at price `p` and current tick `tick`, full
/// range first: the full range position over all valid ticks when it has a
/// weight and gets token0; the base position over `[p / k, p * k]` when its
/// factor `k` is not one and it gets token0; the limit position, with what is
/// not balanced, over `[p / k, tick]` for token1 or `[tick, p * k]` for token0
/// when its factor `k` is not one.
pub open spec fn planned_positions(params: VaultParameters, bal0: nat, bal1: nat, p: nat, tick: int)
    -> Seq<(PositionType, (bool, int, nat), (bool, int, nat), nat, nat)> {
    let b = balanced(bal0, bal1, p);
    let f = full_range_amounts(params, b.0, p);
    let base = base_amounts(params, b.0, b.1, p);
    let limit0 = (bal0 - b.0) as nat;
    let limit1 = (bal1 - b.1) as nat;
    let bf = params.base_factor.0 as nat;
    let lf = params.limit_factor.0 as nat;
    let s0 = if params.full_range_weight.0@ != 0 && f.0 != 0 {
        seq![(PositionType::FullRange, (true, -559680int, 0nat), (true, 559680int, 0nat), f.0, f.1)]
    } else {
        seq![]
    };
    let s1 = if bf != math::decimal_one() && base.0 != 0 {
        s0.push((PositionType::Base, (false, 0int, div_factor(p, bf)), (false, 0int, capped_mul_factor(p, bf)), base.0, base.1))
    } else {
        s0
    };
    if lf != math::decimal_one() && (limit0 != 0 || limit1 != 0) {
        if limit0 == 0 {
            s1.push((PositionType::Limit, (false, 0int, div_factor(p, lf)), (true, tick, 0nat), 0nat, limit1))
        } else {
            s1.push((PositionType::Limit, (true, tick, 0nat), (false, 0int, capped_mul_factor(p, lf)), limit0, 0nat))
        }
    } else {
        s1
    }
}

/// `a1 / a0` lies within 0.3% of `p` (all three products and quotients
/// within 256 bits).
pub open spec fn in_proportion(a0: nat, a1: nat, p: nat) -> bool {
    let ratio = math::prec_div_value(a1, a0);
    &&& ratio < math::u256_limit()
    &&& math::prec_mul_value(p, 1_003_000_000_000_000_000_000_000_000) < math::u256_limit()
    &&& math::prec_mul_value(p, 997_000_000_000_000_000_000_000_000) <= ratio
    &&& ratio <= math::prec_mul_value(p, 1_003_000_000_000_000_000_000_000_000)
}

/// The price a rebalance works at: that of the current tick.
pub open spec fn rebalance_price(liq0: Option<Vec<TickLiquidity>>, liq1: Option<Vec<TickLiquidity>>) -> nat {
    duality_helpers::tick_price(duality_helpers::current_tick_of(liq0, liq1).unwrap() as i64).unwrap()
}

/// A rebalance gets past its checks: the price was read, the sender may
/// rebalance, there is something to rebalance and the price is not zero.
pub open spec fn rebalance_accepted(
    vault_info: VaultInfo,
    vault_state: VaultState,
    balances: VaultBalancesResponse,
    liq0: Option<Vec<TickLiquidity>>,
    liq1: Option<Vec<TickLiquidity>>,
    twap: Option<nat>,
    sender: Seq<char>,
    now: u64,
) -> bool {
    let p = rebalance_price(liq0, liq1);
    &&& duality_helpers::current_tick_of(liq0, liq1) is Some
    &&& rebalance_permitted(vault_info, vault_state, p, twap, sender, now)
    &&& (balances.bal0 != 0 || balances.bal1 != 0)
    &&& p != 0
}

/// The inputs on which an accepted rebalance completes: the balanced amount of
/// token1 stays within 256 bits; balanced amounts are both zero (only when a
/// balance is) or both not zero and in proportion; the full range amounts can
/// be computed and are, when the vault has one, both not zero and in
/// proportion; the full range position takes at most the balanced amounts and
/// leaves some of both to the base position; the fees owed stay within 128
/// bits; and the positions' shares read as integers.
pub open spec fn rebalance_completes(
    params: VaultParameters,
    balances: VaultBalancesResponse,
    fees_info: FeesInfo,
    vault_state: VaultState,
    p: nat,
) -> bool {
    let bal0 = balances.bal0 as nat;
    let bal1 = balances.bal1 as nat;
    let b = balanced(bal0, bal1, p);
    let f = full_range_amounts(params, b.0, p);
    let base = base_amounts(params, b.0, b.1, p);
    let base_one = params.base_factor.0 == math::decimal_one();
    &&& math::prec_mul_value(bal0, p) < math::u256_limit()
    &&& (b.0 == 0 || b.1 == 0) ==> (b.0 == 0 && b.1 == 0 && (bal0 == 0 || bal1 == 0))
    &&& (b.0 != 0 && b.1 != 0) ==> in_proportion(b.0, b.1, p)
    &&& utils::x0_value(params.base_factor.0 as nat, params.full_range_weight.0@, b.0) is Some
    &&& math::prec_mul_value(f.0, p) < math::u256_limit()
    &&& (params.full_range_weight.0@ != 0 && b.0 != 0 && b.1 != 0) ==> (f.0 != 0 && f.1 != 0 && in_proportion(f.0, f.1, p))
    &&& !base_one ==> f.0 <= b.0 && f.1 <= b.1
    &&& (!base_one && b.0 != 0) ==> (base.0 != 0 && base.1 != 0)
    &&& fees_info.protocol_tokens0_owned + balances.protocol_unclaimed_fees0 <= u128::MAX
    &&& fees_info.protocol_tokens1_owned + balances.protocol_unclaimed_fees1 <= u128::MAX
    &&& fees_info.admin_tokens0_owned + balances.admin_unclaimed_fees0 <= u128::MAX
    &&& fees_info.admin_tokens1_owned + balances.admin_unclaimed_fees1 <= u128::MAX
    &&& positions_readable(vault_state)
}

/// The balanced part never exceeds the balances, and what it leaves is of one
/// token only.
pub proof fn lemma_balanced_within_balances(bal0: nat, bal1: nat, p: nat)
    requires
        p > 0,
    ensures
        balanced(bal0, bal1, p).0 <= bal0,
        balanced(bal0, bal1, p).1 <= bal1,
        balanced(bal0, bal1, p).0 == bal0 || balanced(bal0, bal1, p).1 == bal1,
{
    let b0 = math::prec_div_value(bal1, p);
    let b1 = math::prec_mul_value(bal0, p);
    let one = math::prec_one();
    if b0 > bal0 {
        // bal1 * one / p >= bal0 + 1, so bal1 * one >= (bal0 + 1) * p > bal0 * p.
        assert(bal1 * one >= (bal0 + 1) * p) by (nonlinear_arith)
            requires
                b0 == bal1 * one / p,
                b0 >= bal0 + 1,
                p > 0,
        ;
        assert(bal0 * p / one <= bal1) by (nonlinear_arith)
            requires
                bal1 * one >= (bal0 + 1) * p,
                p > 0,
                one > 0,
        ;
    }
}

/// Rebalances the vault: reads the price from the answers to the liquidity
/// queries of token0 and token1 (`None` for a failed query), checks the
/// sender may rebalance (see [`can_rebalance`]), then plans to close every
/// position and reopen them around the price. Refusals come in this order:
/// no price (both queries failed); not permitted; nothing to rebalance; a zero
/// price. The plan splits the balances into a balanced part, shared between
/// the full range and base positions, and a limit position with the rest.
#[verifier::rlimit(60)]
pub fn rebalance(
    vault_info: &VaultInfo,
    vault_state: &VaultState,
    vault_parameters: &VaultParameters,
    balances: &VaultBalancesResponse,
    fees_info: &FeesInfo,
    liq0: &Option<Vec<TickLiquidity>>,
    liq1: &Option<Vec<TickLiquidity>>,
    twap: Option<Dec27>,
    sender: &String,
    now: u64,
    contract_addr: &String,
) -> (r: Result<RebalancePlan, RebalanceError>)
    requires
        vault_info.wf(),
        vault_parameters.wf(),
        duality_helpers::current_tick_computable(*liq0, *liq1),
        duality_helpers::current_tick_of(*liq0, *liq1) matches Some(t) ==> duality_helpers::tick_price(t as i64) is Some,
        duality_helpers::current_tick_of(*liq0, *liq1) is Some && twap is Some
            ==> rebalance_clock_ok(vault_info.rebalancer, vault_state.last_price_and_timestamp, now),
        rebalance_accepted(*vault_info, *vault_state, *balances, *liq0, *liq1, twap_view(twap), sender@, now)
            ==> rebalance_completes(*vault_parameters, *balances, *fees_info, *vault_state, rebalance_price(*liq0, *liq1)),
    ensures
        ({
            let p = rebalance_price(*liq0, *liq1);
            let tw = twap_view(twap);
            if duality_helpers::current_tick_of(*liq0, *liq1) is None {
                r == Err::<RebalancePlan, _>(RebalanceError::CannotFetchPrice())
            } else if !rebalance_permitted(*vault_info, *vault_state, p, tw, sender@, now) {
                r matches Err(e) && rebalance_refusal(*vault_info, *vault_state, p, tw, sender@, now, e)
            } else if balances.bal0 == 0 && balances.bal1 == 0 {
                r == Err::<RebalancePlan, _>(RebalanceError::NothingToRebalance {})
            } else if p == 0 {
                r matches Err(RebalanceError::PairWithoutPrice(id))
                    && id@ == vault_info.pair_id.0[0]@ + "<>"@ + vault_info.pair_id.0[1]@
            } else {
                r matches Ok(plan)
                    && plan.vault_state.full_range_position_shares is None
                    && plan.vault_state.base_position_shares is None
                    && plan.vault_state.limit_position_shares is None
                    && plan.vault_state.last_price_and_timestamp is Some
                    && plan.vault_state.last_price_and_timestamp.unwrap().last_price@ == p
                    && plan.vault_state.last_price_and_timestamp.unwrap().last_timestamp == now
                    && plan.funds_info == (FundsInfo { available_balance0: 0, available_balance1: 0 })
                    && plan.fees_info == (FeesInfo {
                        protocol_tokens0_owned: (fees_info.protocol_tokens0_owned + balances.protocol_unclaimed_fees0) as u128,
                        protocol_tokens1_owned: (fees_info.protocol_tokens1_owned + balances.protocol_unclaimed_fees1) as u128,
                        admin_tokens0_owned: (fees_info.admin_tokens0_owned + balances.admin_unclaimed_fees0) as u128,
                        admin_tokens1_owned: (fees_info.admin_tokens1_owned + balances.admin_unclaimed_fees1) as u128,
                        ..*fees_info
                    })
                    && duality_helpers::removals_views(plan.removals@) == duality_helpers::removals_for(*vault_state, math::prec_one())
                    && positions_view(plan.positions@) == planned_positions(
                        *vault_parameters, balances.bal0 as nat, balances.bal1 as nat, p,
                        duality_helpers::current_tick_of(*liq0, *liq1).unwrap(),
                    )
            }
        }),
{
    let price = match vault_info.pair_id.price(liq0, liq1) {
        Ok(p) => p,
        Err(_) => return Err(RebalanceError::CannotFetchPrice()),
    };
    can_rebalance(vault_info, vault_state, &price, twap, sender, now)?;
    let snapshot = StateSnapshot { last_price: price, last_timestamp: now };
    if balances.bal0 == 0 && balances.bal1 == 0 {
        return Err(RebalanceError::NothingToRebalance {});
    }
    if price.is_zero() {
        return Err(RebalanceError::PairWithoutPrice(vault_info.pair_id.pair_id_str()));
    }
    let ghost p = price@;
    let ghost bal0 = balances.bal0 as nat;
    let ghost bal1 = balances.bal1 as nat;
    proof {
        let one = math::prec_one();
        assert(math::prec_div_value(bal1, p) <= bal1 * one) by {
            math::lemma_scale_le(bal1 * one, 1, p);
        }
        assert(bal1 * one < math::u256_limit()) by (nonlinear_arith)
            requires
                bal1 <= u128::MAX,
                one == math::prec_one(),
        ;
        lemma_balanced_within_balances(bal0, bal1, p);
    }
    let d0 = Dec27::raw(balances.bal0);
    let d1 = Dec27::raw(balances.bal1);
    let balanced0 = d1.checked_div(&price).unwrap();
    let balanced1 = d0.checked_mul(&price).unwrap();
    let (balanced_balance0, balanced_balance1) = if !balanced0.le(&d0) {
        (d0, balanced1)
    } else {
        (balanced0, d1)
    };
    let x0 = calc_x0(&vault_parameters.base_factor, &vault_parameters.full_range_weight, balanced_balance0);
    let y0 = x0.checked_mul(&price).unwrap();
    let (base_balance0, base_balance1) = if !vault_parameters.base_factor.is_one() {
        (balanced_balance0.checked_sub(&x0).unwrap(), balanced_balance1.checked_sub(&y0).unwrap())
    } else {
        (Dec27::zero(), Dec27::zero())
    };
    let limit_balance0 = d0.checked_sub(&balanced_balance0).unwrap();
    let limit_balance1 = d1.checked_sub(&balanced_balance1).unwrap();
    let ghost tick = duality_helpers::current_tick_of(*liq0, *liq1).unwrap();
    let ghost planned = planned_positions(*vault_parameters, bal0, bal1, p, tick);
    let mut positions: Vec<PositionPlan> = Vec::new();
    if !vault_parameters.full_range_weight.is_zero() && !x0.is_zero() {
        positions.push(PositionPlan {
            position: PositionType::FullRange,
            lower: TickBound::Tick(vault_info.min_valid_tick()),
            upper: TickBound::Tick(vault_info.max_valid_tick()),
            amount0: x0,
            amount1: y0,
        });
    }
    if !vault_parameters.base_factor.is_one() && !base_balance0.is_zero() {
        let factor = vault_parameters.base_factor.to_dec27();
        proof {
            math::lemma_u256_bound(price.atomics);
            math::lemma_scale_le(p, math::prec_one(), factor@);
        }
        let lower_price = price.checked_div(&factor).unwrap();
        let upper_price = match price.checked_mul(&factor) {
            Some(v) => v,
            None => Dec27::max(),
        };
        positions.push(PositionPlan {
            position: PositionType::Base,
            lower: TickBound::Price(lower_price),
            upper: TickBound::Price(upper_price),
            amount0: base_balance0,
            amount1: base_balance1,
        });
    }
    if !vault_parameters.limit_factor.is_one() && (!limit_balance0.is_zero() || !limit_balance1.is_zero()) {
        let factor = vault_parameters.limit_factor.to_dec27();
        let tick = vault_info.current_tick(liq0, liq1);
        if limit_balance0.is_zero() {
            proof {
                math::lemma_u256_bound(price.atomics);
                math::lemma_scale_le(p, math::prec_one(), factor@);
            }
            let lower_price = price.checked_div(&factor).unwrap();
            positions.push(PositionPlan {
                position: PositionType::Limit,
                lower: TickBound::Price(lower_price),
                upper: TickBound::Tick(tick),
                amount0: Dec27::zero(),
                amount1: limit_balance1,
            });
        } else {
            let upper_price = match price.checked_mul(&factor) {
                Some(v) => v,
                None => Dec27::max(),
            };
            positions.push(PositionPlan {
                position: PositionType::Limit,
                lower: TickBound::Tick(tick),
                upper: TickBound::Price(upper_price),
                amount0: limit_balance0,
                amount1: Dec27::zero(),
            });
        }
    }
    assert(positions_view(positions@) =~= planned);
    let removals = duality_helpers::remove_liquidity_msgs(vault_state, contract_addr, &Weight::max());
    let new_state = VaultState {
        full_range_position_shares: None,
        base_position_shares: None,
        limit_position_shares: None,
        last_price_and_timestamp: Some(snapshot),
    };
    let new_fees = FeesInfo {
        protocol_tokens0_owned: fees_info.protocol_tokens0_owned + balances.protocol_unclaimed_fees0,
        protocol_tokens1_owned: fees_info.protocol_tokens1_owned + balances.protocol_unclaimed_fees1,
        admin_tokens0_owned: fees_info.admin_tokens0_owned + balances.admin_unclaimed_fees0,
        admin_tokens1_owned: fees_info.admin_tokens1_owned + balances.admin_unclaimed_fees1,
        ..*fees_info
    };
    Ok(RebalancePlan {
        vault_state: new_state,
        funds_info: FundsInfo { available_balance0: 0, available_balance1: 0 },
        fees_info: new_fees,
        removals,
        positions,
    })
}

/// How the dex handles a deposit.
#[derive(Clone, Copy, Debug, PartialEq, Eq)]
pub struct DepositOptions {
    pub disable_autoswap: bool,
    pub fail_tx_on_bel: bool,
    pub swap_on_deposit: bool,
    pub swap_on_deposit_slop_tolerance_bps: u64,
}

/// A deposit into the dex at several ticks: entry `k` of each list belongs to
/// the `k`-th tick.
#[derive(Clone, Debug, PartialEq, Eq)]
pub struct MsgDeposit {
    pub creator: String,
    pub receiver: String,
    pub token_a: String,
    pub token_b: String,
    pub amounts_a: Vec<String>,
    pub amounts_b: Vec<String>,
    pub tick_indexes_a_to_b: Vec<i64>,
    pub fees: Vec<u64>,
    pub options: Vec<DepositOptions>,
}

/// The options of every deposit the vault makes: autoswap on, fail on
/// behind-enemy-lines, swap on deposit without slop.
pub open spec fn vault_deposit_options() -> DepositOptions {
    DepositOptions {
        disable_autoswap: false,
        fail_tx_on_bel: true,
        swap_on_deposit: true,
        swap_on_deposit_slop_tolerance_bps: 0,
    }
}

/// The tick between the lowest token0 tick (`-t0`) and the lowest token1 tick
/// (`t1`), truncated.
pub open spec fn deposit_middle(t0: int, t1: int) -> int {
    duality_helpers::trunc_div(-t0 + t1, 2)
}

/// Whether a range starting at `lower` has, by tick `i`, reached a tick
/// where a token is deposited: for the cheaper token, from the start when the
/// start is at most two ticks above the middle; for the other one, from the
/// first tick at most two ticks below the middle.
pub open spec fn deposits_token(lower: int, i: int, middle: int, cheaper: bool) -> bool {
    if cheaper {
        lower - 2 <= middle
    } else {
        i + 2 >= middle
    }
}

/// The amount written for tick `i`: ten once the token is deposited, zero
/// before.
pub open spec fn deposit_amount(lower: int, i: int, middle: int, cheaper: bool) -> nat {
    if deposits_token(lower, i, middle, cheaper) {
        10
    } else {
        0
    }
}

/// The deposit of a position over the ticks `lower_tick..upper_tick` of the
/// vault's pair, made by and for the vault. The lowest ticks of token0 and
/// token1 come from the first entries of their liquidity (`liq0`, `liq1`);
/// each tick gets a fee of two and the vault's options. The amounts given are
/// not used: each tick deposits ten of a token once the range has reached the
/// ticks where that token is deposited (see [`deposits_token`]), and zero
/// before.
pub fn create_position_msg(
    lower_tick: i64,
    upper_tick: i64,
    tokens_provided0: &Dec27,
    tokens_provided1: &Dec27,
    pair_id: &PairId,
    contract_addr: &String,
    liq0: &Vec<TickLiquidity>,
    liq1: &Vec<TickLiquidity>,
) -> (r: MsgDeposit)
    requires
        liq0.len() > 0,
        liq1.len() > 0,
        duality_helpers::liquidity_tick(liq0@[0]) is Some,
        duality_helpers::liquidity_tick(liq1@[0]) is Some,
        duality_helpers::liquidity_tick(liq0@[0]).unwrap() != i64::MIN,
        i64::MIN <= -duality_helpers::liquidity_tick(liq0@[0]).unwrap() + duality_helpers::liquidity_tick(liq1@[0]).unwrap() <= i64::MAX,
        lower_tick < upper_tick ==> lower_tick >= i64::MIN + 2 && upper_tick <= i64::MAX - 1,
    ensures
        ({
            let t0 = duality_helpers::liquidity_tick(liq0@[0]).unwrap() as int;
            let t1 = duality_helpers::liquidity_tick(liq1@[0]).unwrap() as int;
            let middle = deposit_middle(t0, t1);
            let cheaper0 = -t0 < t1;
            let n = if upper_tick > lower_tick { upper_tick - lower_tick } else { 0 };
            &&& r.creator@ == contract_addr@
            &&& r.receiver@ == contract_addr@
            &&& r.token_a == pair_id.0[0]
            &&& r.token_b == pair_id.0[1]
            &&& r.tick_indexes_a_to_b@.len() == n
            &&& r.amounts_a@.len() == n
            &&& r.amounts_b@.len() == n
            &&& r.fees@.len() == n
            &&& r.options@.len() == n
            &&& forall|k: int| 0 <= k < n ==> {
                &&& #[trigger] r.tick_indexes_a_to_b@[k] == lower_tick + k
                &&& r.amounts_a@[k]@ == text::nat_text(deposit_amount(lower_tick as int, lower_tick + k, middle, cheaper0))
                &&& r.amounts_b@[k]@ == text::nat_text(deposit_amount(lower_tick as int, lower_tick + k, middle, !cheaper0))
                &&& r.fees@[k] == 2
                &&& r.options@[k] == vault_deposit_options()
            }
        }),
{
    let token0 = pair_id.0[0].clone();
    let token1 = pair_id.0[1].clone();
    let min_token0_tick = -get_tick_index_for_liquidity(&liq0[0]);
    let min_token1_tick = get_tick_index_for_liquidity(&liq1[0]);
    let middle_tick = (min_token0_tick + min_token1_tick) / 2;
    let token0_cheaper = min_token0_tick < min_token1_tick;
    let mut deposit_amount0: u128 = 0;
    let mut deposit_amount1: u128 = 0;
    let fee: i64 = 2;
    let options = DepositOptions {
        disable_autoswap: false,
        fail_tx_on_bel: true,
        swap_on_deposit: true,
        swap_on_deposit_slop_tolerance_bps: 0,
    };
    let ghost middle = middle_tick as int;
    let mut amounts_a: Vec<String> = Vec::new();
    let mut amounts_b: Vec<String> = Vec::new();
    let mut tick_indexes: Vec<i64> = Vec::new();
    let mut fees: Vec<u64> = Vec::new();
    let mut all_options: Vec<DepositOptions> = Vec::new();
    let mut i: i64 = lower_tick;
    while i < upper_tick
        invariant
            lower_tick <= i,
            i <= upper_tick || i == lower_tick,
            lower_tick < upper_tick ==> lower_tick >= i64::MIN + 2 && upper_tick <= i64::MAX - 1,
            fee == 2,
            options == vault_deposit_options(),
            middle == middle_tick,
            tick_indexes@.len() == i - lower_tick,
            amounts_a@.len() == i - lower_tick,
            amounts_b@.len() == i - lower_tick,
            fees@.len() == i - lower_tick,
            all_options@.len() == i - lower_tick,
            deposit_amount0 == (if i > lower_tick && deposits_token(lower_tick as int, i - 1, middle, token0_cheaper) { 10u128 } else { 0u128 }),
            deposit_amount1 == (if i > lower_tick && deposits_token(lower_tick as int, i - 1, middle, !token0_cheaper) { 10u128 } else { 0u128 }),
            forall|k: int| 0 <= k < i - lower_tick ==> #[trigger] tick_indexes@[k] == lower_tick + k,
            forall|k: int| 0 <= k < i - lower_tick ==> (#[trigger] amounts_a@[k])@
                == text::nat_text(deposit_amount(lower_tick as int, lower_tick + k, middle, token0_cheaper)),
            forall|k: int| 0 <= k < i - lower_tick ==> (#[trigger] amounts_b@[k])@
                == text::nat_text(deposit_amount(lower_tick as int, lower_tick + k, middle, !token0_cheaper)),
            forall|k: int| 0 <= k < i - lower_tick ==> #[trigger] fees@[k] == 2,
            forall|k: int| 0 <= k < i - lower_tick ==> #[trigger] all_options@[k] == vault_deposit_options(),
        decreases upper_tick - i,
    {
        if (i - fee <= middle_tick && token0_cheaper) || (i + fee >= middle_tick && !token0_cheaper) {
            deposit_amount0 = 10;
        }
        if (i - fee <= middle_tick && !token0_cheaper) || (i + fee >= middle_tick && token0_cheaper) {
            deposit_amount1 = 10;
        }
        let ghost k = i - lower_tick;
        assert(deposit_amount0 == deposit_amount(lower_tick as int, i as int, middle, token0_cheaper));
        assert(deposit_amount1 == deposit_amount(lower_tick as int, i as int, middle, !token0_cheaper));
        let ghost old_ticks = tick_indexes@;
        let ghost old_a = amounts_a@;
        let ghost old_b = amounts_b@;
        let text_a = u128_text(deposit_amount0);
        let text_b = u128_text(deposit_amount1);
        tick_indexes.push(i);
        amounts_a.push(text_a);
        amounts_b.push(text_b);
        fees.push(2u64);
        all_options.push(options);
        assert(tick_indexes@ == old_ticks.push(i));
        assert(amounts_a@ == old_a.push(text_a));
        assert(amounts_b@ == old_b.push(text_b));
        i = i + 1;
    }
    assert(middle == deposit_middle(
        duality_helpers::liquidity_tick(liq0@[0]).unwrap() as int,
        duality_helpers::liquidity_tick(liq1@[0]).unwrap() as int,
    ));
    assert(upper_tick > lower_tick ==> i == upper_tick);
    MsgDeposit {
        creator: contract_addr.clone(),
        receiver: contract_addr.clone(),
        token_a: token0,
        token_b: token1,
        amounts_a,
        amounts_b,
        tick_indexes_a_to_b: tick_indexes,
        fees,
        options: all_options,
    }
}

/// The shares of a position scaled by a weight, by denomination and amount
/// text, every one of them kept.
pub open spec fn scaled_views(coins: Seq<state::DexCoin>, w: nat) -> Seq<(Seq<char>, Seq<char>)> {
    coins.map_values(|c: state::DexCoin| (c.denom@, duality_helpers::proportion_text(c.amount@, w)))
}

/// The message that takes `liquidity_proportion` of a position's dex shares
/// out, every share scaled by the proportion: `None` when the proportion is
/// zero or the position is not open.
pub fn remove_liquidity_msg(
    for_position: PositionType,
    vault_state: &VaultState,
    contract_addr: &String,
    liquidity_proportion: &Weight,
) -> (r: Option<WithdrawalWithShares>)
    requires
        liquidity_proportion.wf(),
        state::position_shares(*vault_state, for_position) matches Some(v) ==> duality_helpers::shares_readable(v@),
    ensures
        liquidity_proportion.0@ == 0 || state::position_shares(*vault_state, for_position) is None ==> r is None,
        liquidity_proportion.0@ != 0 && state::position_shares(*vault_state, for_position) is Some ==> (r matches Some(m)
            && duality_helpers::coin_views(m.shares_to_remove@)
                == scaled_views(state::position_shares(*vault_state, for_position).unwrap()@, liquidity_proportion.0@)
            && m.creator@ == contract_addr@ && m.receiver@ == contract_addr@),
{
    if liquidity_proportion.is_zero() {
        return None;
    }
    let shares = match vault_state.from_position_type(for_position) {
        Some(s) => s,
        None => return None,
    };
    let mut shares_to_remove: Vec<state::DexCoin> = Vec::new();
    let mut i: usize = 0;
    while i < shares.len()
        invariant
            i <= shares@.len(),
            liquidity_proportion.wf(),
            duality_helpers::shares_readable(shares@),
            duality_helpers::coin_views(shares_to_remove@) == scaled_views(shares@.take(i as int), liquidity_proportion.0@),
        decreases shares@.len() - i,
    {
        let ghost prev = shares_to_remove@;
        let coin = duality_helpers::calc_shares_proportion(&shares[i], liquidity_proportion);
        let ghost entry = (coin.denom@, coin.amount@);
        shares_to_remove.push(coin);
        proof {
            assert(shares@.take(i + 1) =~= shares@.take(i as int).push(shares@[i as int]));
            assert(duality_helpers::coin_views(shares_to_remove@) =~= duality_helpers::coin_views(prev).push(entry));
            assert(scaled_views(shares@.take(i + 1), liquidity_proportion.0@)
                =~= scaled_views(shares@.take(i as int), liquidity_proportion.0@).push(entry));
        }
        i = i + 1;
    }
    assert(shares@.take(shares@.len() as int) =~= shares@);
    Some(WithdrawalWithShares { shares_to_remove, creator: contract_addr.clone(), receiver: contract_addr.clone() })
}

/// `p / k` for an 18-decimal factor `k`, rounded down to 27 decimals.
proof fn lemma_div_factor_brackets(p: nat, k: nat)
    requires
        k >= math::decimal_one(),
    ensures
        div_factor(p, k) * (k * 1_000_000_000) <= p * math::prec_one() < (div_factor(p, k) + 1) * (k * 1_000_000_000),
{
    let big: nat = k * 1_000_000_000;
    let x: nat = p * math::prec_one();
    query::lemma_floor_div_brackets(x, big);
}

/// `p * k` for an 18-decimal factor `k`, rounded down to 27 decimals and
/// capped at the largest number.
proof fn lemma_mul_factor_brackets(p: nat, k: nat)
    ensures
        capped_mul_factor(p, k) * math::prec_one() <= p * (k * 1_000_000_000),
        capped_mul_factor(p, k) == math::u256_limit() - 1
            || p * (k * 1_000_000_000) < (capped_mul_factor(p, k) + 1) * math::prec_one(),
{
    let x: nat = p * (k * 1_000_000_000);
    let one: nat = math::prec_one();
    let q: nat = x / one;
    query::lemma_floor_div_brackets(x, one);
    if q >= math::u256_limit() {
        vstd::arithmetic::mul::lemma_mul_inequality((math::u256_limit() - 1) as int, q as int, one as int);
    }
}

/// Each planned range follows its own factor and the current tick: the base
/// position covers `[p / base_factor, p * base_factor]`; the limit position
/// covers `[p / limit_factor, tick]` when it holds token1, and
/// `[tick, p * limit_factor]` when it holds token0. Bounds are rounded down to
/// 27 decimals, and an upper bound is capped at the largest number.
pub proof fn lemma_planned_ranges_follow_factors(params: VaultParameters, bal0: nat, bal1: nat, p: nat, tick: int)
    requires
        params.wf(),
    ensures
        forall|i: int| 0 <= i < planned_positions(params, bal0, bal1, p, tick).len() ==> {
            let e = #[trigger] planned_positions(params, bal0, bal1, p, tick)[i];
            let b: nat = params.base_factor.0 as nat * 1_000_000_000;
            let l: nat = params.limit_factor.0 as nat * 1_000_000_000;
            &&& e.0 == PositionType::Base ==> {
                &&& !e.1.0 && !e.2.0
                &&& e.1.2 * b <= p * math::prec_one() < (e.1.2 + 1) * b
                &&& e.2.2 * math::prec_one() <= p * b
                &&& (e.2.2 == math::u256_limit() - 1 || p * b < (e.2.2 + 1) * math::prec_one())
            }
            &&& (e.0 == PositionType::Limit && e.3 == 0) ==> {
                &&& !e.1.0 && e.2 == (true, tick, 0nat)
                &&& e.1.2 * l <= p * math::prec_one() < (e.1.2 + 1) * l
            }
            &&& (e.0 == PositionType::Limit && e.3 != 0) ==> {
                &&& e.1 == (true, tick, 0nat) && !e.2.0
                &&& e.2.2 * math::prec_one() <= p * l
                &&& (e.2.2 == math::u256_limit() - 1 || p * l < (e.2.2 + 1) * math::prec_one())
            }
        },
{
    let bf = params.base_factor.0 as nat;
    let lf = params.limit_factor.0 as nat;
    lemma_div_factor_brackets(p, bf);
    lemma_div_factor_brackets(p, lf);
    lemma_mul_factor_brackets(p, bf);
    lemma_mul_factor_brackets(p, lf);
}

/// Balances exactly in proportion to the price are balanced whole: nothing is
/// left for a limit position.
pub proof fn lemma_proportional_balances_open_no_limit(params: VaultParameters, bal0: nat, bal1: nat, p: nat, tick: int)
    requires
        p > 0,
        bal1 * math::prec_one() == bal0 * p,
    ensures
        balanced(bal0, bal1, p) == (bal0, bal1),
        forall|i: int| 0 <= i < planned_positions(params, bal0, bal1, p, tick).len()
            ==> (#[trigger] planned_positions(params, bal0, bal1, p, tick)[i]).0 != PositionType::Limit,
{
    assert(math::prec_div_value(bal1, p) == bal0) by {
        vstd::arithmetic::div_mod::lemma_div_by_multiple(bal0 as int, p as int);
    }
}

/// Holding one token only (or too little of the other to trade for one atomic
/// at the price), the vault opens at most one position, a limit one.
pub proof fn lemma_single_token_opens_only_limit(params: VaultParameters, bal0: nat, bal1: nat, p: nat, tick: int)
    requires
        p > 0,
        bal0 == 0 || bal1 == 0,
        utils::x0_value(params.base_factor.0 as nat, params.full_range_weight.0@, balanced(bal0, bal1, p).0) is Some,
    ensures
        planned_positions(params, bal0, bal1, p, tick).len() <= 1,
        forall|i: int| 0 <= i < planned_positions(params, bal0, bal1, p, tick).len()
            ==> (#[trigger] planned_positions(params, bal0, bal1, p, tick)[i]).0 == PositionType::Limit,
{
    let b = balanced(bal0, bal1, p);
    assert(b.0 == 0) by {
        if bal1 == 0 {
            assert(math::prec_div_value(0, p) == 0);
        }
    }
    let k = params.base_factor.0 as nat;
    let w = params.full_range_weight.0@;
    assert(utils::x0_value(k, w, 0).unwrap() == 0) by {
        if w != 0 {
            let s = utils::sqrt_factor(k);
            let n1 = utils::prec_mul_checked(w, s).unwrap();
            assert(math::prec_mul_value(n1, 0) == 0);
            let d = (s - math::prec_one() + w) as nat;
            assert(math::prec_div_value(0, d) == 0);
        }
    }
}

/// The amount of token0 the planned positions take, all together.
pub open spec fn planned_total0(ps: Seq<(PositionType, (bool, int, nat), (bool, int, nat), nat, nat)>) -> nat
    decreases ps.len(),
{
    if ps.len() == 0 {
        0
    } else {
        planned_total0(ps.drop_last()) + ps.last().3
    }
}

/// The amount of token1 the planned positions take, all together.
pub open spec fn planned_total1(ps: Seq<(PositionType, (bool, int, nat), (bool, int, nat), nat, nat)>) -> nat
    decreases ps.len(),
{
    if ps.len() == 0 {
        0
    } else {
        planned_total1(ps.drop_last()) + ps.last().4
    }
}

/// With a base and a limit position, a rebalance puts every token of the
/// balances into a position: the planned positions take exactly the balances.
pub proof fn lemma_rebalance_places_all_balances(
    params: VaultParameters,
    balances: VaultBalancesResponse,
    fees_info: FeesInfo,
    vault_state: VaultState,
    p: nat,
    tick: int,
)
    requires
        p > 0,
        params.base_factor.0 != math::decimal_one(),
        params.limit_factor.0 != math::decimal_one(),
        rebalance_completes(params, balances, fees_info, vault_state, p),
    ensures
        planned_total0(planned_positions(params, balances.bal0 as nat, balances.bal1 as nat, p, tick)) == balances.bal0,
        planned_total1(planned_positions(params, balances.bal0 as nat, balances.bal1 as nat, p, tick)) == balances.bal1,
{
    let bal0 = balances.bal0 as nat;
    let bal1 = balances.bal1 as nat;
    lemma_balanced_within_balances(bal0, bal1, p);
    let b = balanced(bal0, bal1, p);
    let f = full_range_amounts(params, b.0, p);
    assert(f.0 == 0 ==> f.1 == 0);
    assert(b.0 == 0 ==> b.1 == 0);
    reveal_with_fuel(planned_total0, 4);
    reveal_with_fuel(planned_total1, 4);
}

/// Once anyone's rebalance has recorded the block time, nobody may rebalance
/// again in that block.
pub proof fn lemma_one_public_rebalance_per_block(
    vault_info: VaultInfo,
    vault_state: VaultState,
    price: nat,
    twap: Option<nat>,
    sender: Seq<char>,
    now: u64,
)
    requires
        vault_info.rebalancer is Anyone,
        twap is Some,
        vault_state.last_price_and_timestamp is Some,
        vault_state.last_price_and_timestamp.unwrap().last_timestamp == now,
    ensures
        !rebalance_permitted(vault_info, vault_state, price, twap, sender, now),
        rebalance_refusal(vault_info, vault_state, price, twap, sender, now, RebalanceError::CantRebalanceTwicePerBlock()),
{
}

/// For a vault anyone may rebalance, once the wait is over and outside the
/// last rebalance's block, a price that has left the band around the last
/// price may be rebalanced at, as long as it lies within one percent of the
/// average: the band is exclusive of `last / factor` and `last * factor`, so a
/// price at or below `last / factor` (`price * factor <= last`), or at or
/// above `last * factor`, has moved enough, however far it moved.
pub proof fn lemma_moved_price_permits_rebalance(
    vault_info: VaultInfo,
    vault_state: VaultState,
    f: state::PriceFactor,
    wait: u64,
    snapshot: StateSnapshot,
    price: nat,
    twap: nat,
    sender: Seq<char>,
    now: u64,
)
    requires
        vault_info.rebalancer == (VaultRebalancer::Anyone { price_factor_before_rebalance: f, time_before_rabalance: wait }),
        vault_state.last_price_and_timestamp == Some(snapshot),
        f.wf(),
        price < math::u256_limit(),
        now != snapshot.last_timestamp,
        snapshot.last_timestamp + wait * 1_000_000_000 <= now,
        price * f.0 <= snapshot.last_price@ * 1_000_000_000_000_000_000
            || price * 1_000_000_000_000_000_000 >= snapshot.last_price@ * f.0,
        twap_low(twap) <= price <= twap_high(twap),
    ensures
        rebalance_permitted(vault_info, vault_state, price, Some(twap), sender, now),
{
    let last = snapshot.last_price@;
    let big: nat = (f.0 * 1_000_000_000) as nat;
    let one: nat = math::prec_one();
    assert(big >= one);
    let d: nat = (last * one) / big;
    let m: nat = (last * big) / one;
    vstd::arithmetic::div_mod::lemma_fundamental_div_mod((last * one) as int, big as int);
    vstd::arithmetic::div_mod::lemma_mod_bound((last * one) as int, big as int);
    vstd::arithmetic::div_mod::lemma_fundamental_div_mod((last * big) as int, one as int);
    vstd::arithmetic::div_mod::lemma_mod_bound((last * big) as int, one as int);
    if price * f.0 <= last * 1_000_000_000_000_000_000 {
        assert(price <= d) by (nonlinear_arith)
            requires
                price * f.0 <= last * 1_000_000_000_000_000_000,
                big == f.0 * 1_000_000_000,
                one == 1_000_000_000_000_000_000_000_000_000,
                last * one == big * d + (last * one) % big,
                (last * one) % big < big,
                big > 0,
        ;
    } else {
        assert(m <= price) by (nonlinear_arith)
            requires
                price * 1_000_000_000_000_000_000 >= last * f.0,
                big == f.0 * 1_000_000_000,
                one == 1_000_000_000_000_000_000_000_000_000,
                last * big == one * m + (last * big) % one,
                (last * big) % one >= 0,
        ;
    }
}

/// A rebalance by anyone, once the vault was rebalanced before, is permitted
/// only outside the last rebalance's block, once the wait is over, and at a
/// price within one percent of the average (`99 * twap <= 100 * price <= 101 * twap`).
pub proof fn lemma_public_rebalance_waits_and_follows_average(
    vault_info: VaultInfo,
    vault_state: VaultState,
    f: state::PriceFactor,
    wait: u64,
    snapshot: StateSnapshot,
    price: nat,
    twap: nat,
    sender: Seq<char>,
    now: u64,
)
    requires
        vault_info.rebalancer == (VaultRebalancer::Anyone { price_factor_before_rebalance: f, time_before_rabalance: wait }),
        vault_state.last_price_and_timestamp == Some(snapshot),
        rebalance_permitted(vault_info, vault_state, price, Some(twap), sender, now),
    ensures
        now != snapshot.last_timestamp,
        snapshot.last_timestamp + wait * 1_000_000_000 <= now,
        99 * twap <= 100 * price,
        100 * price <= 101 * twap,
{
    let x: nat = twap * 10_000_000_000_000_000_000_000_000nat;
    let one: nat = math::prec_one();
    let q: nat = x / one;
    query::lemma_floor_div_brackets(x, one);
    assert(q * 100 <= twap) by (nonlinear_arith)
        requires
            q * one <= x,
            x == twap * 10_000_000_000_000_000_000_000_000nat,
            one == 1_000_000_000_000_000_000_000_000_000nat,
    ;
    assert(twap_variation(twap) == q);
}

/// A price that has not moved enough is refused only from strictly inside
/// the band around the last price: above `last / factor` and below
/// `last * factor` (`last < price * factor` and `price < last * factor`).
pub proof fn lemma_unmoved_refusal_inside_band(
    vault_info: VaultInfo,
    vault_state: VaultState,
    price: nat,
    twap: Option<nat>,
    sender: Seq<char>,
    now: u64,
    e: RebalanceError,
)
    requires
        vault_info.wf(),
        rebalance_refusal(vault_info, vault_state, price, twap, sender, now, e),
        e is PriceHasntMovedEnough,
    ensures
        vault_info.rebalancer matches VaultRebalancer::Anyone { price_factor_before_rebalance: f, .. }
            && vault_state.last_price_and_timestamp matches Some(s)
            && s.last_price@ * 1_000_000_000_000_000_000 < price * f.0
            && price * 1_000_000_000_000_000_000 < s.last_price@ * f.0,
{
    match vault_info.rebalancer {
        VaultRebalancer::Anyone { price_factor_before_rebalance: f, .. } => {
            let s = vault_state.last_price_and_timestamp.unwrap();
            let last = s.last_price@;
            let big: nat = (f.0 * 1_000_000_000) as nat;
            let one: nat = math::prec_one();
            assert(big >= one);
            let d: nat = (last * one) / big;
            let m: nat = (last * big) / one;
            vstd::arithmetic::div_mod::lemma_fundamental_div_mod((last * one) as int, big as int);
            vstd::arithmetic::div_mod::lemma_mod_bound((last * one) as int, big as int);
            vstd::arithmetic::div_mod::lemma_fundamental_div_mod((last * big) as int, one as int);
            vstd::arithmetic::div_mod::lemma_mod_bound((last * big) as int, one as int);
            assert(d + 1 <= price);
            assert(price + 1 <= m);
            assert((d + 1) * big == big * d + big) by (nonlinear_arith);
            vstd::arithmetic::mul::lemma_mul_inequality((d + 1) as int, price as int, big as int);
            assert(price * big > last * one);
            assert(last * 1_000_000_000_000_000_000 < price * f.0) by (nonlinear_arith)
                requires
                    price * big > last * one,
                    big == f.0 * 1_000_000_000,
                    one == 1_000_000_000_000_000_000_000_000_000,
            ;
            assert(price * 1_000_000_000_000_000_000 < last * f.0) by (nonlinear_arith)
                requires
                    price + 1 <= m,
                    big == f.0 * 1_000_000_000,
                    one == 1_000_000_000_000_000_000_000_000_000,
                    last * big == one * m + (last * big) % one,
                    (last * big) % one >= 0,
            ;
        },
        _ => {},
    }
}

/// Whether every share amount reads as an integer.
pub fn shares_read(coins: &Vec<state::DexCoin>) -> (r: bool)
    ensures
        r == duality_helpers::shares_readable(coins@),
{
    let mut i: usize = 0;
    while i < coins.len()
        invariant
            i <= coins@.len(),
            forall|j: int| 0 <= j < i ==> (#[trigger] text::parse_uint(coins@[j].amount@, query::u128_limit())) is Some,
        decreases coins@.len() - i,
    {
        if text::u128_parse(coins[i].amount.as_str()).is_none() {
            return false;
        }
        i = i + 1;
    }
    true
}

/// Whether the share amounts of every open position read as integers, as
/// removing a proportion of them requires.
pub fn positions_read(vault_state: &VaultState) -> (r: bool)
    ensures
        r == positions_readable(*vault_state),
{
    let full = match &vault_state.full_range_position_shares {
        Some(v) => shares_read(v),
        None => true,
    };
    let base = match &vault_state.base_position_shares {
        Some(v) => shares_read(v),
        None => true,
    };
    let limit = match &vault_state.limit_position_shares {
        Some(v) => shares_read(v),
        None => true,
    };
    full && base && limit
}

/// Whether `a1 / a0` lies within 0.3% of `p` (see [`in_proportion`]).
fn in_proportion_check(a0: &Dec27, a1: &Dec27, p: &Dec27) -> (r: bool)
    requires
        a0@ != 0,
    ensures
        r == in_proportion(a0@, a1@, p@),
{
    let ratio = match a1.checked_div(a0) {
        Some(v) => v,
        None => return false,
    };
    let high = match p.checked_mul(&Dec27::raw(1_003_000_000_000_000_000_000_000_000u128)) {
        Some(v) => v,
        None => return false,
    };
    proof {
        math::lemma_u256_bound(p.atomics);
        math::lemma_scale_le(p@, 997_000_000_000_000_000_000_000_000, math::prec_one());
    }
    let low = p.checked_mul(&Dec27::raw(997_000_000_000_000_000_000_000_000u128)).unwrap();
    low.le(&ratio) && ratio.le(&high)
}

/// Whether an accepted rebalance at `price` completes (see
/// [`rebalance_completes`]): the test to make before calling [`rebalance`].
pub fn rebalance_would_complete(
    params: &VaultParameters,
    balances: &VaultBalancesResponse,
    fees_info: &FeesInfo,
    vault_state: &VaultState,
    price: &Dec27,
) -> (r: bool)
    requires
        price@ != 0,
    ensures
        r == rebalance_completes(*params, *balances, *fees_info, *vault_state, price@),
{
    let ghost p = price@;
    let ghost bal0 = balances.bal0 as nat;
    let ghost bal1 = balances.bal1 as nat;
    let d0 = Dec27::raw(balances.bal0);
    let d1 = Dec27::raw(balances.bal1);
    let balanced1 = match d0.checked_mul(price) {
        Some(v) => v,
        None => return false,
    };
    proof {
        let one = math::prec_one();
        assert(math::prec_div_value(bal1, p) <= bal1 * one) by {
            math::lemma_scale_le(bal1 * one, 1, p);
        }
        assert(bal1 * one < math::u256_limit()) by (nonlinear_arith)
            requires
                bal1 <= u128::MAX,
                one == math::prec_one(),
        ;
    }
    let balanced0 = d1.checked_div(price).unwrap();
    let (b0, b1) = if !balanced0.le(&d0) {
        (d0, balanced1)
    } else {
        (balanced0, d1)
    };
    if b0.is_zero() || b1.is_zero() {
        if !(b0.is_zero() && b1.is_zero() && (balances.bal0 == 0 || balances.bal1 == 0)) {
            return false;
        }
    } else if !in_proportion_check(&b0, &b1, price) {
        return false;
    }
    let x0 = match checked_calc_x0(&params.base_factor, &params.full_range_weight, b0) {
        Some(v) => v,
        None => return false,
    };
    let y0 = match x0.checked_mul(price) {
        Some(v) => v,
        None => return false,
    };
    if !params.full_range_weight.is_zero() && !b0.is_zero() && !b1.is_zero() {
        if x0.is_zero() || y0.is_zero() || !in_proportion_check(&x0, &y0, price) {
            return false;
        }
    }
    if !params.base_factor.is_one() {
        if !(x0.le(&b0) && y0.le(&b1)) {
            return false;
        }
        if !b0.is_zero() {
            let base0 = b0.checked_sub(&x0).unwrap();
            let base1 = b1.checked_sub(&y0).unwrap();
            if base0.is_zero() || base1.is_zero() {
                return false;
            }
        }
    }
    if fees_info.protocol_tokens0_owned.checked_add(balances.protocol_unclaimed_fees0).is_none()
        || fees_info.protocol_tokens1_owned.checked_add(balances.protocol_unclaimed_fees1).is_none()
        || fees_info.admin_tokens0_owned.checked_add(balances.admin_unclaimed_fees0).is_none()
        || fees_info.admin_tokens1_owned.checked_add(balances.admin_unclaimed_fees1).is_none() {
        return false;
    }
    positions_read(vault_state)
}

/// Whether the shares of a deposit can be computed (see
/// [`query::shares_computable`]): the test to make before calling
/// [`calc_shares_and_usable_amounts`].
pub fn shares_would_compute(in0: u128, in1: u128, total0: u128, total1: u128, total_supply: u128) -> (r: bool)
    ensures
        r == query::shares_computable(in0 as nat, in1 as nat, total0 as nat, total1 as nat, total_supply as nat),
{
    if total_supply == 0 {
        total0 == 0 && total1 == 0 && (in0 >= MIN_LIQUIDITY || in1 >= MIN_LIQUIDITY)
    } else if total0 == 0 {
        if total1 == 0 {
            false
        } else {
            proof { query::lemma_u128_product_fits(in1, total_supply); }
            let num = math::u256_checked_mul(&math::u256_from_u128(in1), &math::u256_from_u128(total_supply)).unwrap();
            let q = math::u256_checked_div(&num, &math::u256_from_u128(total1)).unwrap();
            u256_to_u128(&q).is_some()
        }
    } else if total1 == 0 {
        proof { query::lemma_u128_product_fits(in0, total_supply); }
        let num = math::u256_checked_mul(&math::u256_from_u128(in0), &math::u256_from_u128(total_supply)).unwrap();
        let q = math::u256_checked_div(&num, &math::u256_from_u128(total0)).unwrap();
        u256_to_u128(&q).is_some()
    } else {
        proof {
            query::lemma_u128_product_fits(in0, total1);
            query::lemma_u128_product_fits(in1, total0);
        }
        let a = math::u256_checked_mul(&math::u256_from_u128(in0), &math::u256_from_u128(total1)).unwrap();
        let b = math::u256_checked_mul(&math::u256_from_u128(in1), &math::u256_from_u128(total0)).unwrap();
        let c = if math::u256_le(&a, &b) { a } else { b };
        match math::u256_checked_mul(&c, &math::u256_from_u128(total_supply)) {
            None => false,
            Some(cs) => {
                let q = math::u256_checked_div(&cs, &math::u256_from_u128(total0)).unwrap();
                let q = math::u256_checked_div(&q, &math::u256_from_u128(total1)).unwrap();
                u256_to_u128(&q).is_some()
            },
        }
    }
}

/// Whether a deposit passes the checks made before its shares are computed
/// (see [`deposit_accepted`]).
pub fn deposit_passes_checks(
    msg: &DepositMsg,
    funds: &Vec<Coin>,
    vault_info: &VaultInfo,
    contract_addr: &String,
    holder_valid: bool,
) -> (r: bool)
    ensures
        r == deposit_accepted(*msg, funds@, *vault_info, contract_addr@, holder_valid),
{
    let (denom0, denom1) = vault_info.denoms();
    !(msg.amount0 == 0 && msg.amount1 == 0 && funds.len() == 0)
        && find_sent_amount(funds, &denom0) == msg.amount0
        && find_sent_amount(funds, &denom1) == msg.amount1
        && holder_valid
        && !msg.to.eq(contract_addr)
        && (msg.amount0 > MIN_LIQUIDITY || msg.amount1 > MIN_LIQUIDITY)
}

/// Whether an accepted deposit completes (see [`deposit_completes`]): the
/// test to make before calling [`deposit`].
pub fn deposit_would_complete(msg: &DepositMsg, total0: u128, total1: u128, total_supply: u128, funds_info: &FundsInfo) -> (r: bool)
    ensures
        r == deposit_completes(*msg, total0, total1, total_supply, *funds_info),
{
    let in0 = msg.amount0;
    let in1 = msg.amount1;
    let computable = shares_would_compute(in0, in1, total0, total1, total_supply);
    if !computable {
        return false;
    }
    let calc = calc_shares_and_usable_amounts(in0, in1, total0, total1, total_supply);
    let min_mint: u128 = if total_supply == 0 { MIN_LIQUIDITY } else { 0 };
    funds_info.available_balance0.checked_add(calc.usable_amount0).is_some()
        && funds_info.available_balance1.checked_add(calc.usable_amount1).is_some()
        && calc.shares != 0
        && match total_supply.checked_add(min_mint) {
            Some(t) => t.checked_add(calc.shares).is_some(),
            None => false,
        }
}

/// Whether an addressed withdrawal completes (see [`withdrawal_completes`]):
/// the test to make before calling [`withdraw`].
pub fn withdrawal_would_complete(
    msg: &WithdrawMsg,
    total_supply: u128,
    shares_held: u128,
    balances: &VaultBalancesResponse,
    vault_state: &VaultState,
    fees_info: &FeesInfo,
) -> (r: bool)
    ensures
        r == withdrawal_completes(*msg, total_supply, shares_held, *balances, *vault_state, *fees_info),
{
    fees_info.protocol_tokens0_owned.checked_add(balances.protocol_unclaimed_fees0).is_some()
        && fees_info.protocol_tokens1_owned.checked_add(balances.protocol_unclaimed_fees1).is_some()
        && fees_info.admin_tokens0_owned.checked_add(balances.admin_unclaimed_fees0).is_some()
        && fees_info.admin_tokens1_owned.checked_add(balances.admin_unclaimed_fees1).is_some()
        && (msg.shares > shares_held || (msg.shares <= total_supply && positions_read(vault_state)))
}

} // verus!
