//! Whole vault flows: set-up, deposits, rebalances and withdrawals, with the
//! vault's storage and its share token kept by the test itself.

use magma_core::constants::{MIN_LIQUIDITY, VAULT_CREATION_COST_DENOM};
use magma_core::contract::{instantiate, reply};
use magma_core::duality_helpers::{checked_tick_index_to_price, price_readable, Liquidity, TickLiquidity};
use magma_core::error::{AdminOperationError, DepositError, RebalanceError, WithdrawalError};
use magma_core::execute::{
    can_rebalance, deposit, deposit_passes_checks, deposit_would_complete, rebalance, rebalance_clock_fits,
    rebalance_would_complete, refuses_funds, withdraw, withdraw_admin_fees, withdrawal_would_complete, PositionPlan,
    RebalancePlan, TickBound,
};
use magma_core::math::Dec27;
use magma_core::msg::{
    DepositMsg, InstantiateMsg, PositionBalancesWithFeesResponse, VaultBalancesResponse,
    VaultInfoInstantiateMsg, VaultParametersInstantiateMsg, VaultRebalancerInstantiateMsg,
    WithdrawMsg,
};
use magma_core::query::vault_balances;
use magma_core::state::{Coin, DexCoin, FeesInfo, FundsInfo, PositionType, VaultInfo, VaultParameters, VaultState};

const USDC_DENOM: &str = VAULT_CREATION_COST_DENOM;
const OSMO_DENOM: &str = "uosmo";
const VAULT: &str = "vault";
const DEPLOYER: &str = "deployer";
const USER1: &str = "user1";
const USER2: &str = "user2";

struct Vault {
    info: VaultInfo,
    params: VaultParameters,
    state: VaultState,
    fees: FeesInfo,
    funds: FundsInfo,
    supply: u128,
    holders: Vec<(String, u128)>,
    /// What the dex holds in each position, and the fees it earned.
    positions: [PositionBalancesWithFeesResponse; 3],
    /// Tick of the pair on the dex.
    tick: i64,
    /// Tick before the last swap, and when the swap happened: the average
    /// price over the last minute is that of `tick` only a minute after it.
    tick_before_swap: i64,
    swapped_at: u64,
    /// Block time, in nanoseconds.
    now: u64,
}

fn vault_params(base: &str, limit: &str, full: &str) -> VaultParametersInstantiateMsg {
    VaultParametersInstantiateMsg {
        base_factor: base.to_string(),
        limit_factor: limit.to_string(),
        full_range_weight: full.to_string(),
    }
}

fn new_vault(params: VaultParametersInstantiateMsg, rebalancer: VaultRebalancerInstantiateMsg, tick: i64) -> Vault {
    let msg = InstantiateMsg {
        vault_info: VaultInfoInstantiateMsg {
            token_0: USDC_DENOM.to_string(),
            token_1: OSMO_DENOM.to_string(),
            vault_name: "My USDC/OSMO vault".to_string(),
            vault_symbol: "USDCOSMOV".to_string(),
            admin: Some(DEPLOYER.to_string()),
            admin_fee: "0.05".to_string(),
            rebalancer,
        },
        vault_parameters: params,
    };
    let paid = vec![Coin { denom: USDC_DENOM.to_string(), amount: 1000 }];
    let i = instantiate(msg, &VAULT.to_string(), &paid, true, true).unwrap();
    Vault {
        info: i.vault_info,
        params: i.vault_parameters,
        state: i.vault_state,
        fees: i.fees_info,
        funds: i.funds_info,
        supply: i.token_info.total_supply,
        holders: vec![],
        positions: [PositionBalancesWithFeesResponse::default(); 3],
        tick,
        tick_before_swap: tick,
        swapped_at: 0,
        // Blocks come at 0.7 s past a whole second.
        now: 1_000_700_000_000,
    }
}

fn liquidity(tick: i64) -> Option<Vec<TickLiquidity>> {
    Some(vec![TickLiquidity {
        liquidity: Some(Liquidity::PoolReserves { tick_index_taker_to_maker: Some(tick) }),
    }])
}

const SECOND: u64 = 1_000_000_000;

impl Vault {
    fn shares_of(&self, who: &str) -> u128 {
        self.holders.iter().filter(|(h, _)| h == who).map(|(_, s)| *s).sum()
    }

    fn credit(&mut self, who: &str, amount: u128) {
        match self.holders.iter_mut().find(|(h, _)| h == who) {
            Some(entry) => entry.1 += amount,
            None => self.holders.push((who.to_string(), amount)),
        }
    }

    fn increase_time(&mut self, seconds: u64) {
        self.now += seconds * SECOND;
    }

    /// A swap on the pair moves its tick by `ticks` and earns the vault's
    /// first open position `fee` of the token swapped in.
    fn swap(&mut self, ticks: i64, fee0: u128, fee1: u128) {
        self.tick_before_swap = self.tick;
        self.tick += ticks;
        self.swapped_at = self.now;
        if let Some(p) = self.positions.iter_mut().find(|p| p.bal0 != 0 || p.bal1 != 0) {
            p.bal0_fees += fee0;
            p.bal1_fees += fee1;
        }
    }

    fn balances(&self) -> VaultBalancesResponse {
        vault_balances(&self.positions, &self.funds, &self.fees)
    }

    fn deposit_with(&mut self, msg: DepositMsg, funds: Vec<Coin>, from: &str) -> Result<(), DepositError> {
        let bals = self.balances();
        if deposit_passes_checks(&msg, &funds, &self.info, &VAULT.to_string(), true) {
            assert!(deposit_would_complete(&msg, bals.bal0, bals.bal1, self.supply, &self.funds));
        }
        let out = deposit(msg, &funds, &self.info, &VAULT.to_string(), true, bals.bal0, bals.bal1, self.supply, &self.funds)?;
        self.supply += out.min_mint + out.shares;
        self.credit(from, out.shares);
        self.funds = out.funds_info;
        Ok(())
    }

    fn deposit(&mut self, usdc: u128, osmo: u128, from: &str) -> Result<(), DepositError> {
        let mut funds = vec![];
        if usdc != 0 {
            funds.push(Coin { denom: USDC_DENOM.to_string(), amount: usdc });
        }
        if osmo != 0 {
            funds.push(Coin { denom: OSMO_DENOM.to_string(), amount: osmo });
        }
        let msg = DepositMsg { amount0: usdc, amount1: osmo, amount0_min: 0, amount1_min: 0, to: from.to_string() };
        self.deposit_with(msg, funds, from)
    }

    fn withdraw_with(&mut self, msg: WithdrawMsg, from: &str) -> Result<(u128, u128), WithdrawalError> {
        let bals = self.balances();
        let held = self.shares_of(from);
        if msg.shares != 0 && msg.to != VAULT {
            assert!(withdrawal_would_complete(&msg, self.supply, held, &bals, &self.state, &self.fees));
        }
        let out = withdraw(msg, &VAULT.to_string(), true, self.supply, held, &bals, &self.info, self.state.clone(), &self.fees, &self.funds)?;
        self.supply -= out.burn;
        self.credit(from, 0);
        for entry in self.holders.iter_mut() {
            if entry.0 == from {
                entry.1 -= out.burn;
            }
        }
        self.fees = out.fees_info;
        self.funds = out.funds_info;
        self.state = out.vault_state;
        // The dex gives back the withdrawn proportion of each position, and
        // the fees are collected.
        for p in self.positions.iter_mut() {
            p.bal0 -= p.bal0 * out.burn / (self.supply + out.burn);
            p.bal1 -= p.bal1 * out.burn / (self.supply + out.burn);
            p.bal0_fees = 0;
            p.bal1_fees = 0;
        }
        Ok((out.amount0, out.amount1))
    }

    fn withdraw(&mut self, shares: u128, from: &str) -> Result<(u128, u128), WithdrawalError> {
        let msg = WithdrawMsg { shares, amount0_min: 0, amount1_min: 0, to: from.to_string() };
        self.withdraw_with(msg, from)
    }

    /// The average price over the last minute.
    fn twap(&self) -> Option<Dec27> {
        if self.now >= self.swapped_at + 60 * SECOND {
            checked_tick_index_to_price(self.tick)
        } else {
            checked_tick_index_to_price(self.tick_before_swap)
        }
    }

    fn rebalance(&mut self, from: &str) -> Result<RebalancePlan, RebalanceError> {
        let bals = self.balances();
        let liq = liquidity(self.tick);
        let twap = self.twap();
        assert!(price_readable(&liq, &liq));
        assert!(rebalance_clock_fits(&self.info.rebalancer, &self.state.last_price_and_timestamp, self.now));
        let price = self.info.pair_id.price(&liq, &liq).unwrap();
        let permitted = can_rebalance(&self.info, &self.state, &price, twap, &from.to_string(), self.now).is_ok();
        if permitted && (bals.bal0 != 0 || bals.bal1 != 0) {
            assert!(rebalance_would_complete(&self.params, &bals, &self.fees, &self.state, &price));
        }
        let plan = rebalance(
            &self.info, &self.state, &self.params, &bals, &self.fees, &liq, &liq, twap,
            &from.to_string(), self.now, &VAULT.to_string(),
        )?;
        self.state = plan.vault_state.clone();
        self.fees = plan.fees_info;
        self.funds = plan.funds_info;
        // Every position is closed, then the planned ones are opened and the
        // dex's replies record their shares.
        self.positions = [PositionBalancesWithFeesResponse::default(); 3];
        for p in plan.positions.iter() {
            let index = match p.position {
                PositionType::FullRange => 0,
                PositionType::Base => 1,
                PositionType::Limit => 2,
            };
            self.positions[index].bal0 = amount(&p.amount0);
            self.positions[index].bal1 = amount(&p.amount1);
            let shares = vec![DexCoin { denom: format!("pool-{}", index), amount: "1000000".to_string() }];
            self.state = reply(self.state.clone(), index as u64, shares);
        }
        Ok(plan)
    }

    fn admin_withdraw(&mut self, from: &str) -> Result<Vec<Coin>, AdminOperationError> {
        let (fees, _to, sent) = withdraw_admin_fees(&self.fees, &self.info, &from.to_string())?;
        self.fees = fees;
        Ok(sent)
    }
}

fn amount(d: &Dec27) -> u128 {
    magma_core::utils::uint256_to_uint128(&d.atomics)
}

fn has_position(plan: &RebalancePlan, kind: PositionType) -> bool {
    plan.positions.iter().any(|p: &PositionPlan| p.position == kind)
}

fn within(a: u128, b: u128, tolerance: u128) -> bool {
    let d = if a > b { a - b } else { b - a };
    d <= tolerance
}

/// `1.0001^6932` is about two: the pool of 100 000 USDC and 200 000 OSMO.
const TICK_OF_TWO: i64 = 6932;

/// The pool of 200 000 USDC and 100 000 OSMO has price one half, at tick
/// -6931. The vault reads a tick's price as `1.0001` raised to the tick taken
/// as a 32-bit exponent, which overflows for a negative tick: it cannot read
/// that pool's price. The flows that rebalance on it run on the pool at
/// price two instead, with the same deposits.
const TICK_OF_THE_HALF_POOL: i64 = TICK_OF_TWO;

#[test]
fn withdraw_without_rebalances() {
    let mut vault = new_vault(vault_params("2", "1.45", "0.55"), VaultRebalancerInstantiateMsg::Admin {}, TICK_OF_TWO);
    let (vault_x, vault_y) = (10_000, 15_000);
    vault.deposit(vault_x, vault_y, USER1).unwrap();
    let before = vault.balances();
    let shares_got = vault.shares_of(USER1);
    assert!(vault.withdraw(shares_got, USER2).is_err());
    vault.withdraw(shares_got, USER1).unwrap();
    let after = vault.balances();

    assert_eq!(before.bal0, vault_x);
    assert_eq!(before.bal1, vault_y);
    assert!(within(after.bal0, 0, MIN_LIQUIDITY + 1));
    assert!(within(after.bal1, 0, MIN_LIQUIDITY + 1));
}

#[test]
fn withdraw_limit_without_rebalances() {
    let mut vault = new_vault(vault_params("2", "1.45", "0.55"), VaultRebalancerInstantiateMsg::Admin {}, TICK_OF_TWO);
    let (vault_x, vault_y) = (0, 6969);
    vault.deposit(vault_x, vault_y, USER1).unwrap();
    assert_eq!(vault.balances().bal0, 0);
    assert_eq!(vault.balances().bal1, vault_y);

    let shares_got = vault.shares_of(USER1);
    vault.withdraw(shares_got, USER1).unwrap();
    assert_eq!(vault.balances().bal0, 0);
    assert!(within(vault.balances().bal1, 0, MIN_LIQUIDITY + 1));
}

#[test]
fn withdraw_with_min_amounts() {
    let mut vault = new_vault(vault_params("2", "1.45", "0.55"), VaultRebalancerInstantiateMsg::Admin {}, TICK_OF_TWO);
    let (vault_x, vault_y) = (10_000, 15_000);
    let funds = vec![
        Coin { denom: USDC_DENOM.to_string(), amount: vault_x },
        Coin { denom: OSMO_DENOM.to_string(), amount: vault_y },
    ];
    let improper_deposit = vault.deposit_with(
        DepositMsg { amount0: vault_x, amount1: vault_y, amount0_min: vault_x + 1, amount1_min: vault_y + 1, to: USER1.to_string() },
        funds.clone(),
        USER1,
    );
    assert!(improper_deposit.is_err());
    vault.deposit_with(
        DepositMsg { amount0: vault_x, amount1: vault_y, amount0_min: vault_x, amount1_min: vault_y, to: USER1.to_string() },
        funds,
        USER1,
    ).unwrap();

    let before = vault.balances();
    let shares_got = vault.shares_of(USER1);
    let improper_withdrawal = vault.withdraw_with(
        WithdrawMsg {
            shares: shares_got,
            amount0_min: before.bal0 - MIN_LIQUIDITY,
            amount1_min: before.bal1 - MIN_LIQUIDITY,
            to: USER1.to_string(),
        },
        USER1,
    );
    assert!(improper_withdrawal.is_err());
    vault.withdraw_with(
        WithdrawMsg {
            shares: shares_got,
            amount0_min: before.bal0 - MIN_LIQUIDITY - 1,
            amount1_min: before.bal1 - MIN_LIQUIDITY - 1,
            to: USER1.to_string(),
        },
        USER1,
    ).unwrap();

    let after = vault.balances();
    assert!(within(after.bal0, 0, MIN_LIQUIDITY + 1));
    assert!(within(after.bal1, 0, MIN_LIQUIDITY + 1));
    assert_eq!(after.protocol_unclaimed_fees0, 0);
    assert_eq!(after.protocol_unclaimed_fees1, 0);
}

#[test]
fn min_liquidity_attack() {
    let mut vault = new_vault(vault_params("2", "1.45", "0.55"), VaultRebalancerInstantiateMsg::Admin {}, TICK_OF_TWO);
    vault.deposit(10_000, 10_000, USER1).unwrap();
    let shares = vault.shares_of(USER1);
    vault.withdraw(shares - 1, USER1).unwrap();

    vault.deposit(10_000, 10_000, USER2).unwrap();
    let shares = vault.shares_of(USER2);
    vault.withdraw(shares - 1, USER2).unwrap();
}

#[test]
fn partial_withdrawal_without_rebalance() {
    let mut vault = new_vault(vault_params("2", "1.45", "0.55"), VaultRebalancerInstantiateMsg::Admin {}, TICK_OF_TWO);
    let usdc_amount = 10_000;
    let osmo_amount = 10_000;
    vault.deposit(usdc_amount, osmo_amount, USER1).unwrap();

    let shares = vault.shares_of(USER1);
    assert_eq!(shares + MIN_LIQUIDITY, usdc_amount);

    vault.withdraw(4444, USER1).unwrap();
    let shares = vault.shares_of(USER1);
    vault.withdraw(shares, USER1).unwrap();
    assert_eq!(vault.shares_of(USER1), 0);
}

#[test]
fn normal_rebalances() {
    let mut vault = new_vault(vault_params("2", "1.45", "0.55"), VaultRebalancerInstantiateMsg::Admin {}, TICK_OF_TWO);
    vault.deposit(1_000, 1_500, USER1).unwrap();
    let bals = vault.balances();
    assert_eq!(bals.bal0, 1_000);
    assert_eq!(bals.bal1, 1_500);
    let plan = vault.rebalance(DEPLOYER).unwrap();

    // x0 = sqrt(k) * X * w / (sqrt(k) - 1 + w) = sqrt(2) * 750 * 0.55 / (sqrt(2) - 1 + 0.55), about 605;
    // y0 = x0 * p.
    let full_range = plan.positions.iter().find(|p| p.position == PositionType::FullRange).unwrap();
    assert!(within(amount(&full_range.amount1), 605 * 2, 5));
}

#[test]
fn only_limit_rebalance() {
    let mut vault = new_vault(vault_params("2", "1.45", "0.55"), VaultRebalancerInstantiateMsg::Admin {}, TICK_OF_TWO);
    vault.deposit(10_123, 0, USER1).unwrap();
    vault.rebalance(DEPLOYER).unwrap();

    // Dual case
    let mut vault = new_vault(vault_params("2", "1.45", "0.55"), VaultRebalancerInstantiateMsg::Admin {}, TICK_OF_TWO);
    vault.deposit(0, 10_123, USER1).unwrap();
    vault.rebalance(DEPLOYER).unwrap();

    // Combined case
    let mut vault = new_vault(vault_params("2", "1.45", "0.55"), VaultRebalancerInstantiateMsg::Admin {}, TICK_OF_TWO);
    vault.deposit(10_123, 0, USER1).unwrap();
    let plan = vault.rebalance(DEPLOYER).unwrap();
    assert!(has_position(&plan, PositionType::Limit));
    assert!(!has_position(&plan, PositionType::FullRange));
    assert!(!has_position(&plan, PositionType::Base));

    let shares = vault.shares_of(USER1);
    vault.withdraw(shares, USER1).unwrap();
}

#[test]
fn rebalance_closes_and_reopens_positions_around_the_price() {
    let mut vault = new_vault(vault_params("2", "1.45", "0.55"), VaultRebalancerInstantiateMsg::Admin {}, TICK_OF_TWO);
    vault.deposit(10_000, 25_000, USER1).unwrap();
    let plan = vault.rebalance(DEPLOYER).unwrap();
    let kinds: Vec<PositionType> = plan.positions.iter().map(|p| p.position).collect();
    assert_eq!(kinds, vec![PositionType::FullRange, PositionType::Base, PositionType::Limit]);
    // Every token of the balances goes into a position.
    let total0: u128 = plan.positions.iter().map(|p| amount(&p.amount0)).sum();
    let total1: u128 = plan.positions.iter().map(|p| amount(&p.amount1)).sum();
    assert_eq!((total0, total1), (10_000, 25_000));
    assert_eq!(plan.positions[0].lower, TickBound::Tick(-559680));
    assert_eq!(plan.positions[0].upper, TickBound::Tick(559680));
    // More token1 than the price asks for: the limit position holds token1,
    // from `p / 1.45` up to the current tick.
    assert_eq!(plan.positions[2].upper, TickBound::Tick(TICK_OF_TWO));
    assert!(plan.positions[2].amount0.is_zero());
    assert!(!plan.positions[2].amount1.is_zero());
    assert!(plan.vault_state.full_range_position_shares.is_none());
    assert_eq!(plan.vault_state.last_price_and_timestamp.unwrap().last_timestamp, vault.now);
    assert_eq!(plan.funds_info, FundsInfo { available_balance0: 0, available_balance1: 0 });
}

#[test]
fn only_the_admin_rebalances_an_admin_vault() {
    let mut vault = new_vault(vault_params("2", "1.45", "0.55"), VaultRebalancerInstantiateMsg::Admin {}, TICK_OF_TWO);
    vault.deposit(10_000, 10_000, USER1).unwrap();
    assert_eq!(
        vault.rebalance(USER1),
        Err(RebalanceError::UnauthorhizedNonAdminAccount { admin: DEPLOYER.to_string(), got: USER1.to_string() })
    );
    assert!(vault.rebalance(DEPLOYER).is_ok());
}

#[test]
fn normal_rebalance_dual() {
    let mut vault = new_vault(vault_params("2", "1.45", "0.55"), VaultRebalancerInstantiateMsg::Admin {}, TICK_OF_TWO);
    vault.deposit(1_000, 1_500, USER1).unwrap();
    vault.rebalance(DEPLOYER).unwrap();
}

#[test]
fn rebalance_in_proportion() {
    let (pool_balance0, pool_balance1) = (100_000, 200_000);
    let mut vault = new_vault(vault_params("2", "1.45", "0.55"), VaultRebalancerInstantiateMsg::Admin {}, TICK_OF_TWO);
    vault.deposit(pool_balance0 / 2, pool_balance1 / 2, USER1).unwrap();
    let plan = vault.rebalance(DEPLOYER).unwrap();
    assert!(vault.state.full_range_position_shares.is_some());
    assert!(vault.state.base_position_shares.is_some());
    // The price at the pool's tick is 2.0000356..., not exactly two: the one
    // atomic unit of token0 that this leaves over is all the limit position
    // gets.
    let limit: Vec<&PositionPlan> = plan.positions.iter().filter(|p| p.position == PositionType::Limit).collect();
    assert!(limit.iter().all(|p| amount(&p.amount0) <= 1 && p.amount1.is_zero()));
}

#[test]
fn full_limit_liquidation() {
    let mut vault = new_vault(vault_params("2", "1.45", "0.55"), VaultRebalancerInstantiateMsg::Admin {}, TICK_OF_TWO);
    vault.deposit(50_000, 0, USER1).unwrap();
    vault.rebalance(DEPLOYER).unwrap();
    let shares = vault.shares_of(USER1);
    vault.withdraw(shares, USER1).unwrap();

    vault.deposit(50_000, 0, USER1).unwrap();
    vault.rebalance(DEPLOYER).unwrap();
    let shares = vault.shares_of(USER1);
    vault.withdraw(shares, USER1).unwrap();
}

#[test]
fn full_balanced_liquidation() {
    let mut vault = new_vault(vault_params("2", "1.45", "0.55"), VaultRebalancerInstantiateMsg::Admin {}, TICK_OF_TWO);
    vault.deposit(10_000, 20_000, USER1).unwrap();
    vault.rebalance(DEPLOYER).unwrap();
    let shares = vault.shares_of(USER1);
    vault.withdraw(shares, USER1).unwrap();

    vault.deposit(10_000, 20_000, USER1).unwrap();
    vault.rebalance(DEPLOYER).unwrap();
    let shares = vault.shares_of(USER1);
    vault.withdraw(shares, USER1).unwrap();
}

#[test]
fn full_liquidation() {
    let mut vault = new_vault(vault_params("2", "1.45", "0.55"), VaultRebalancerInstantiateMsg::Admin {}, TICK_OF_TWO);
    vault.deposit(10_000, 25_000, USER1).unwrap();
    vault.rebalance(DEPLOYER).unwrap();
    let shares = vault.shares_of(USER1);
    vault.withdraw(shares, USER1).unwrap();

    vault.deposit(10_000, 25_000, USER1).unwrap();
    vault.rebalance(DEPLOYER).unwrap();
    let shares = vault.shares_of(USER1);
    vault.withdraw(shares, USER1).unwrap();
}

#[test]
fn rebalance_after_price_change() {
    let mut vault = new_vault(vault_params("2", "1.45", "0.55"), VaultRebalancerInstantiateMsg::Admin {}, TICK_OF_TWO);
    let (vault_x, vault_y) = (10_000, 10_000);
    vault.deposit(vault_x, vault_y, USER1).unwrap();
    vault.rebalance(DEPLOYER).unwrap();

    // Swapping a tenth of the vault's OSMO for USDC raises the price of USDC
    // by about one percent.
    vault.swap(100, 0, 2);
    vault.rebalance(DEPLOYER).unwrap();
    vault.swap(-100, 2, 0);
    vault.rebalance(DEPLOYER).unwrap();
}

#[test]
fn out_of_range_vault_positions_test() {
    let mut vault = new_vault(vault_params("2", "1.45", "0.55"), VaultRebalancerInstantiateMsg::Admin {}, TICK_OF_TWO);
    let (vault_x, vault_y) = (10_000, 15_000);
    vault.deposit(vault_x, vault_y, USER1).unwrap();
    let shares_got = vault.shares_of(USER1);
    vault.rebalance(DEPLOYER).unwrap();
    // Swapping 50 000 USDC for OSMO halves the price of USDC: the base and
    // limit positions fall out of range.
    vault.swap(-6_000, 100, 0);
    vault.withdraw(shares_got, USER1).unwrap();
}

fn assert_only_token1_fees_owed(fees: &FeesInfo, admin_owed: bool) {
    assert_eq!(fees.admin_tokens0_owned, 0);
    assert_eq!(fees.admin_tokens1_owned != 0, admin_owed);
    assert_eq!(fees.protocol_tokens0_owned, 0);
    assert!(fees.protocol_tokens1_owned != 0);
}

#[test]
fn fees_withdrawals_on_rebalance() {
    let mut vault = new_vault(vault_params("2", "1.45", "0.55"), VaultRebalancerInstantiateMsg::Admin {}, TICK_OF_THE_HALF_POOL);
    vault.deposit(100_000, 50_000, USER1).unwrap();
    vault.rebalance(DEPLOYER).unwrap();

    // Swapping 20 000 OSMO for USDC earns the positions fees in OSMO.
    vault.swap(200, 0, 40);
    vault.rebalance(DEPLOYER).unwrap();
    assert_only_token1_fees_owed(&vault.fees, true);

    assert!(vault.admin_withdraw(USER1).is_err());
    assert!(vault.admin_withdraw(USER2).is_err());
    vault.admin_withdraw(DEPLOYER).unwrap();
    vault.admin_withdraw(DEPLOYER).unwrap();
    assert_only_token1_fees_owed(&vault.fees, false);
}

#[test]
fn fees_withdrawals_on_withdrawal() {
    let mut vault = new_vault(vault_params("2", "1.45", "0.55"), VaultRebalancerInstantiateMsg::Admin {}, TICK_OF_THE_HALF_POOL);
    vault.deposit(100_000, 50_000, USER1).unwrap();
    vault.rebalance(DEPLOYER).unwrap();
    let shares = vault.shares_of(USER1);

    vault.swap(200, 0, 40);
    vault.withdraw(shares, USER1).unwrap();
    assert_only_token1_fees_owed(&vault.fees, true);

    assert!(vault.admin_withdraw(USER1).is_err());
    assert!(vault.admin_withdraw(USER2).is_err());
    let sent = vault.admin_withdraw(DEPLOYER).unwrap();
    assert_eq!(sent, vec![Coin { denom: OSMO_DENOM.to_string(), amount: 2 }]);
    let again = vault.admin_withdraw(DEPLOYER).unwrap();
    assert!(again.is_empty());
    assert_only_token1_fees_owed(&vault.fees, false);
}

#[test]
fn cant_operate_with_no_funds() {
    let mut vault = new_vault(vault_params("2", "1.45", "0.55"), VaultRebalancerInstantiateMsg::Admin {}, TICK_OF_THE_HALF_POOL);
    assert_eq!(vault.rebalance(DEPLOYER), Err(RebalanceError::NothingToRebalance {}));
    assert!(vault.withdraw(1, DEPLOYER).is_err());
    assert_eq!(vault.withdraw(0, DEPLOYER), Err(WithdrawalError::ZeroSharesWithdrawal {}));
}

#[test]
fn cant_manipulate_contract_balances_in_unintended_ways() {
    let mut vault = new_vault(vault_params("2", "1.45", "0.55"), VaultRebalancerInstantiateMsg::Admin {}, TICK_OF_THE_HALF_POOL);
    // Funds that differ from the amounts named in the message are refused.
    let msg = DepositMsg { amount0: 50_000, amount1: 50_000, amount0_min: 0, amount1_min: 0, to: USER1.to_string() };
    let funds = vec![
        Coin { denom: USDC_DENOM.to_string(), amount: 50_000 },
        Coin { denom: OSMO_DENOM.to_string(), amount: 50_001 },
    ];
    assert!(vault.deposit_with(msg, funds, USER1).is_err());
    vault.deposit(50_000, 50_000, USER1).unwrap();
    let shares = vault.shares_of(USER1);
    assert!(shares > 0);
    // A withdrawal that brings funds is refused before it is looked at.
    let funds = vec![Coin { denom: USDC_DENOM.to_string(), amount: 1_000 }];
    assert!(refuses_funds(false, &funds));
    assert!(!refuses_funds(true, &funds));
}

#[test]
fn partial_withdrawal_with_rebalance() {
    let mut vault = new_vault(vault_params("2", "1.45", "0.55"), VaultRebalancerInstantiateMsg::Admin {}, TICK_OF_THE_HALF_POOL);
    let usdc_amount = 10_000;
    let osmo_amount = 10_000;
    vault.deposit(usdc_amount, osmo_amount, USER1).unwrap();

    let shares = vault.shares_of(USER1);
    assert_eq!(shares + MIN_LIQUIDITY, usdc_amount);

    vault.withdraw(4444, USER1).unwrap();
    vault.rebalance(DEPLOYER).unwrap();
    let shares = vault.shares_of(USER1);
    vault.withdraw(shares / 2, USER1).unwrap();
    vault.rebalance(DEPLOYER).unwrap();
    let shares = vault.shares_of(USER1);
    vault.withdraw(shares, USER1).unwrap();
    assert_eq!(vault.shares_of(USER1), 0);
}

#[test]
fn public_first_rebalancing() {
    let rebalancer = VaultRebalancerInstantiateMsg::Anyone {
        price_factor_before_rebalance: "1".to_string(),
        seconds_before_rabalance: 69,
    };
    let mut vault = new_vault(vault_params("2", "1.45", "0.55"), rebalancer, TICK_OF_THE_HALF_POOL);
    vault.deposit(10_000, 10_000, USER1).unwrap();
    vault.rebalance(USER2).unwrap();
}

#[test]
fn public_rebalancing_at_due_time() {
    let seconds_before_rabalance = 3600;
    let rebalancer = VaultRebalancerInstantiateMsg::Anyone {
        price_factor_before_rebalance: "1".to_string(),
        seconds_before_rabalance,
    };
    let mut vault = new_vault(vault_params("2", "1.45", "0.55"), rebalancer, TICK_OF_THE_HALF_POOL);
    vault.deposit(10_000, 10_000, USER1).unwrap();
    vault.rebalance(USER2).unwrap();
    assert_eq!(vault.rebalance(USER1), Err(RebalanceError::CantRebalanceTwicePerBlock()));

    // Each transaction comes in a block three seconds after the last one.
    vault.increase_time(seconds_before_rabalance as u64 - 6);
    assert_eq!(vault.rebalance(USER1), Err(RebalanceError::NotEnoughTimePassed { time_left: 6 }));
    vault.increase_time(3);
    assert_eq!(vault.rebalance(DEPLOYER), Err(RebalanceError::NotEnoughTimePassed { time_left: 3 }));
    vault.increase_time(3);
    vault.rebalance(USER1).unwrap();
    vault.increase_time(3);
    assert_eq!(vault.rebalance(DEPLOYER), Err(RebalanceError::NotEnoughTimePassed { time_left: 3597 }));
}

#[test]
fn public_rebalancing_after_price_moved() {
    let rebalancer = VaultRebalancerInstantiateMsg::Anyone {
        price_factor_before_rebalance: "1.01".to_string(),
        seconds_before_rabalance: 0,
    };
    let mut vault = new_vault(vault_params("2", "1.45", "0.55"), rebalancer, TICK_OF_THE_HALF_POOL);
    vault.deposit(10_000, 10_000, USER1).unwrap();
    vault.rebalance(USER2).unwrap();
    vault.increase_time(1);
    match vault.rebalance(USER1) {
        Err(RebalanceError::PriceHasntMovedEnough { price, factor }) => {
            assert_eq!(price, checked_tick_index_to_price(TICK_OF_THE_HALF_POOL).unwrap().to_string());
            assert_eq!(factor, "1.01");
        },
        other => panic!("unexpected {:?}", other),
    }
    // Swapping 10 000 OSMO for USDC raises the price of USDC by about ten
    // percent.
    vault.swap(1_000, 0, 20);

    // The average price over the last minute has not followed yet.
    assert!(matches!(vault.rebalance(USER1), Err(RebalanceError::PriceMovedTooMuchInLastMinute { .. })));
    vault.increase_time(30);
    assert!(vault.rebalance(USER1).is_err());
    vault.increase_time(30);
    vault.rebalance(USER1).unwrap();
}
