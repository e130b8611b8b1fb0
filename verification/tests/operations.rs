//! The vault's operations one by one: their answers and their refusals.

use magma_core::constants::PROTOCOL;
use magma_core::contract::{instantiate, reply};
use magma_core::duality_helpers::{self, calc_shares_proportion, remove_liquidity_msgs, Liquidity, TickLiquidity};
use magma_core::error::{AdminOperationError, DepositError, InstantiationError, ProtocolOperationError, RebalanceError, WithdrawalError};
use magma_core::execute::{
    can_rebalance, change_admin_fee, change_protocol_fee, change_vault_info, change_vault_parameters,
    create_position_msg, deposit, deposit_passes_checks, deposit_would_complete, keep_nonzero,
    positions_read, rebalance_clock_fits, rebalance_would_complete, remove_liquidity_msg, shares_would_compute, withdraw,
    withdraw_admin_fees, withdraw_protocol_fees, withdrawal_would_complete, DepositOptions,
};
use magma_core::utils::checked_calc_x0;
use magma_core::math::Dec27;
use magma_core::msg::{
    DepositMsg, InstantiateMsg, PositionBalancesWithFeesResponse, VaultBalancesResponse,
    VaultInfoInstantiateMsg, VaultParametersInstantiateMsg, VaultRebalancerInstantiateMsg, WithdrawMsg,
};
use magma_core::query::{calc_shares_and_usable_amounts, position_balance, vault_balances, PositionData};
use magma_core::state::{
    Coin, DexCoin, FeesInfo, FundsInfo, PairId, PositionType, PriceFactor, StateSnapshot, VaultInfo,
    VaultParameters, VaultRebalancer, VaultState, Weight,
};

const VAULT: &str = "vault";

fn s(x: &str) -> String {
    x.to_string()
}

fn params(base: &str, limit: &str, full: &str) -> VaultParametersInstantiateMsg {
    VaultParametersInstantiateMsg { base_factor: s(base), limit_factor: s(limit), full_range_weight: s(full) }
}

fn info_msg(admin: Option<&str>, rebalancer: VaultRebalancerInstantiateMsg) -> VaultInfoInstantiateMsg {
    VaultInfoInstantiateMsg {
        token_0: s("uosmo"),
        token_1: s("untrn"),
        vault_name: s("vault"),
        vault_symbol: s("VLT"),
        admin: admin.map(s),
        admin_fee: s("0.05"),
        rebalancer,
    }
}

fn admin_vault() -> VaultInfo {
    VaultInfo::new(info_msg(Some("admin"), VaultRebalancerInstantiateMsg::Admin {}), true, true).unwrap()
}

fn paid() -> Vec<Coin> {
    vec![Coin { denom: s("untrn"), amount: 1000 }]
}

fn atomics(d: &Dec27) -> u128 {
    magma_core::utils::uint256_to_uint128(&d.atomics)
}

// ---- set-up -----------------------------------------------------------------

#[test]
fn instantiate_sets_up_an_empty_vault() {
    let msg = InstantiateMsg { vault_info: info_msg(Some("admin"), VaultRebalancerInstantiateMsg::Admin {}), vault_parameters: params("2", "1.45", "0.55") };
    let i = instantiate(msg, &s(VAULT), &paid(), true, true).unwrap();
    assert_eq!(i.vault_info.pair_id.0, [s("untrn"), s("uosmo")]);
    assert_eq!(i.vault_parameters.base_factor.0, 2_000_000_000_000_000_000);
    assert_eq!(i.fees_info.protocol_vault_creation_tokens_owned, 1000);
    assert!(i.vault_state.last_price_and_timestamp.is_none());
    assert_eq!(i.funds_info, FundsInfo { available_balance0: 0, available_balance1: 0 });
    assert_eq!(i.token_info.decimals, 18);
    assert_eq!(i.token_info.total_supply, 0);
    assert_eq!(i.token_info.minter, s(VAULT));
}

#[test]
fn instantiate_checks_info_then_parameters_then_fees() {
    let bad_info = info_msg(None, VaultRebalancerInstantiateMsg::Admin {});
    let msg = InstantiateMsg { vault_info: bad_info, vault_parameters: params("x", "1.45", "0.55") };
    assert!(matches!(instantiate(msg, &s(VAULT), &vec![], true, true), Err(InstantiationError::ContradictoryConfig { .. })));

    let msg = InstantiateMsg { vault_info: info_msg(Some("admin"), VaultRebalancerInstantiateMsg::Admin {}), vault_parameters: params("x", "1.45", "0.55") };
    assert_eq!(instantiate(msg, &s(VAULT), &vec![], true, true).unwrap_err(), InstantiationError::InvalidPriceFactor(s("x")));

    let msg = InstantiateMsg { vault_info: info_msg(Some("admin"), VaultRebalancerInstantiateMsg::Admin {}), vault_parameters: params("2", "1.45", "0.55") };
    assert_eq!(
        instantiate(msg, &s(VAULT), &vec![], true, true).unwrap_err(),
        InstantiationError::VaultCreationCostNotPaid { cost: s("1000"), denom: s("untrn"), got: s("0") }
    );
}

#[test]
fn vault_parameters_need_all_three_positions() {
    assert!(VaultParameters::new(params("2", "1.45", "0.55")).is_ok());
    assert_eq!(VaultParameters::new(params("0.5", "1.45", "0.55")).unwrap_err(), InstantiationError::InvalidPriceFactor(s("0.5")));
    assert_eq!(VaultParameters::new(params("2", "1.45", "1.1")).unwrap_err(), InstantiationError::InvalidWeight(s("1.1")));
    let reason = |p: VaultParametersInstantiateMsg| match VaultParameters::new(p) {
        Err(InstantiationError::ContradictoryConfig { reason }) => reason,
        other => panic!("unexpected {:?}", other),
    };
    assert_eq!(reason(params("1", "1", "0")), "All vault parameters will produce null positions, all capital would be idle");
    assert_eq!(reason(params("1", "1.45", "0")), "A vault without balanced orders will have idle capital");
    assert_eq!(reason(params("2", "1", "0.5")), "A vault without a limit order will have idle capital");
    assert_eq!(reason(params("1", "1.45", "0.5")), "If the vault doenst have a base order, the full range weight should be 1");
    // All three positions present: accepted, whatever the weight.
    assert!(VaultParameters::new(params("2", "1.45", "1")).is_ok());
    assert_eq!(reason(params("1", "1.45", "1")), "We dont support vaults with less than 3 positions for now");
}

#[test]
fn rebalancers_and_vault_info() {
    assert_eq!(VaultRebalancer::new(VaultRebalancerInstantiateMsg::Admin {}, false), Ok(VaultRebalancer::Admin {}));
    assert_eq!(
        VaultRebalancer::new(VaultRebalancerInstantiateMsg::Delegate { rebalancer: s("bot") }, false),
        Err(InstantiationError::InvalidDelegateAddress(s("bot")))
    );
    assert_eq!(
        VaultRebalancer::new(VaultRebalancerInstantiateMsg::Anyone { price_factor_before_rebalance: s("0.9"), seconds_before_rabalance: 5 }, true),
        Err(InstantiationError::InvalidPriceFactor(s("0.9")))
    );
    assert_eq!(
        VaultInfo::new(info_msg(Some("admin"), VaultRebalancerInstantiateMsg::Admin {}), false, true),
        Err(InstantiationError::InvalidAdminAddress(s("admin")))
    );
    let anyone = VaultRebalancerInstantiateMsg::Anyone { price_factor_before_rebalance: s("1.01"), seconds_before_rabalance: 5 };
    let v = VaultInfo::new(info_msg(None, anyone), true, true).unwrap();
    assert!(v.admin.is_none());
    assert_eq!(v.denoms(), (s("untrn"), s("uosmo")));
    assert_eq!(v.demon0(), s("untrn"));
    assert_eq!(v.demon1(), s("uosmo"));
    assert_eq!((v.min_valid_tick(), v.max_valid_tick()), (-559680, 559680));
}

#[test]
fn fees_of_a_new_vault() {
    let admin = admin_vault();
    let f = FeesInfo::new(s("0.02"), &admin, &paid()).unwrap();
    assert_eq!(f.admin_fee.0 .0, Dec27::from_str("0.02").unwrap());
    assert_eq!(
        FeesInfo::new(s("0.2"), &admin, &paid()),
        Err(InstantiationError::InvalidAdminFee { max: s("0.1"), got: s("0.2") })
    );
    let anyone = VaultRebalancerInstantiateMsg::Anyone { price_factor_before_rebalance: s("1"), seconds_before_rabalance: 0 };
    let no_admin = VaultInfo::new(info_msg(None, anyone), true, true).unwrap();
    assert_eq!(FeesInfo::new(s("0.02"), &no_admin, &paid()), Err(InstantiationError::AdminFeeWithoutAdmin {}));
    assert!(FeesInfo::new(s("0"), &no_admin, &paid()).is_ok());
    let updated = f.update_admin_fee(s("0.03"), &admin).unwrap();
    assert_eq!(updated.admin_fee.0 .0, Dec27::from_str("0.03").unwrap());
    assert_eq!(updated.protocol_vault_creation_tokens_owned, 1000);
    assert_eq!(
        f.update_protocol_fee(s("0.5")),
        Err(ProtocolOperationError::InvalidProtocolFee { max: s("0.1"), got: s("0.5") })
    );
}

// ---- shares and balances ------------------------------------------------------

#[test]
fn shares_of_first_and_later_deposits() {
    let first = calc_shares_and_usable_amounts(10_000, 15_000, 0, 0, 0);
    assert_eq!((first.shares, first.usable_amount0, first.usable_amount1), (14_000, 10_000, 15_000));
    // A later deposit uses the amounts in the vault's proportion (rounded up) and mints
    // shares in proportion to the supply.
    let later = calc_shares_and_usable_amounts(1_000, 1_000, 10_000, 15_000, 15_000);
    assert_eq!((later.shares, later.usable_amount0, later.usable_amount1), (1_000, 667, 1_000));
    // Depositing into a vault that holds only token1.
    let only1 = calc_shares_and_usable_amounts(500, 700, 0, 7_000, 7_000);
    assert_eq!((only1.shares, only1.usable_amount0, only1.usable_amount1), (700, 0, 700));
}

#[test]
fn vault_balances_split_fees_from_depositors() {
    let fees = FeesInfo::default();
    let position = PositionBalancesWithFeesResponse { bal0: 1_000, bal1: 2_000, bal0_fees: 100, bal1_fees: 200 };
    let empty = PositionBalancesWithFeesResponse::default();
    let funds = FundsInfo { available_balance0: 10, available_balance1: 20 };
    let b = vault_balances(&[position, empty, empty], &funds, &fees);
    // 5% of the fees to the protocol, 5% to the admin.
    assert_eq!((b.protocol_unclaimed_fees0, b.protocol_unclaimed_fees1), (5, 10));
    assert_eq!((b.admin_unclaimed_fees0, b.admin_unclaimed_fees1), (5, 10));
    // Nothing is lost: depositors and fee owners share everything held.
    assert_eq!(b.bal0 + b.protocol_unclaimed_fees0 + b.admin_unclaimed_fees0, 1_000 + 100 + 10);
    assert_eq!(b.bal1 + b.protocol_unclaimed_fees1 + b.admin_unclaimed_fees1, 2_000 + 200 + 20);
}

#[test]
fn position_balances_read_from_the_dex() {
    let p = PositionData {
        asset0: DexCoin { denom: s("untrn"), amount: s("1001") },
        asset1: DexCoin { denom: s("uosmo"), amount: s("0") },
        claimable_spread_rewards: vec![DexCoin { denom: s("uosmo"), amount: s("7") }],
        claimable_incentives: vec![DexCoin { denom: s("untrn"), amount: s("3") }, DexCoin { denom: s("uosmo"), amount: s("1") }],
    };
    let r = position_balance(&Some(p), &s("untrn"), &s("uosmo"));
    assert_eq!(r, PositionBalancesWithFeesResponse { bal0: 1_000, bal1: 0, bal0_fees: 3, bal1_fees: 8 });
    assert_eq!(position_balance(&None, &s("untrn"), &s("uosmo")), PositionBalancesWithFeesResponse::default());
}

// ---- deposits and withdrawals ---------------------------------------------

fn deposit_msg(a0: u128, a1: u128) -> DepositMsg {
    DepositMsg { amount0: a0, amount1: a1, amount0_min: 0, amount1_min: 0, to: s("user") }
}

fn sent(a0: u128, a1: u128) -> Vec<Coin> {
    vec![Coin { denom: s("untrn"), amount: a0 }, Coin { denom: s("uosmo"), amount: a1 }]
}

#[test]
fn deposit_refusals() {
    let v = admin_vault();
    let f = FundsInfo::default();
    let dep = |msg: DepositMsg, funds: Vec<Coin>, valid: bool| deposit(msg, &funds, &v, &s(VAULT), valid, 0, 0, 0, &f);
    assert_eq!(dep(deposit_msg(0, 0), vec![], true).unwrap_err(), DepositError::ZeroTokensSent {});
    assert_eq!(
        dep(deposit_msg(5_000, 5_000), sent(5_000, 4_000), true).unwrap_err(),
        DepositError::ImproperSentAmounts { expected: s("(5000, 5000)"), got: s("(5000, 4000)") }
    );
    assert_eq!(dep(deposit_msg(5_000, 5_000), sent(5_000, 5_000), false).unwrap_err(), DepositError::InvalidShareholderAddress(s("user")));
    let to_vault = DepositMsg { to: s(VAULT), ..deposit_msg(5_000, 5_000) };
    assert_eq!(dep(to_vault, sent(5_000, 5_000), true).unwrap_err(), DepositError::ShareholderCantBeContract(s(VAULT)));
    assert_eq!(
        dep(deposit_msg(1_000, 900), sent(1_000, 900), true).unwrap_err(),
        DepositError::DepositedAmountBelowMinLiquidity { min_liquidity: s("1000"), got: s("(1000, 900)") }
    );
    let wants_more = DepositMsg { amount0_min: 5_001, ..deposit_msg(5_000, 5_000) };
    assert_eq!(
        dep(wants_more, sent(5_000, 5_000), true).unwrap_err(),
        DepositError::DepositedAmountsBelowMin { used: s("(5000, 5000)"), wanted: s("(5001, 0)") }
    );
}

#[test]
fn deposit_refunds_what_is_not_used() {
    let v = admin_vault();
    let f = FundsInfo { available_balance0: 10_000, available_balance1: 15_000 };
    let out = deposit(deposit_msg(1_500, 1_500), &sent(1_500, 1_500), &v, &s(VAULT), true, 10_000, 15_000, 15_000, &f).unwrap();
    assert_eq!(out.shares, 1_500);
    assert_eq!(out.min_mint, 0);
    assert_eq!(out.funds_info, FundsInfo { available_balance0: 11_000, available_balance1: 16_500 });
    assert_eq!(out.refund, vec![Coin { denom: s("untrn"), amount: 500 }]);
    assert_eq!(keep_nonzero(sent(0, 3)), vec![Coin { denom: s("uosmo"), amount: 3 }]);
}

fn withdraw_msg(shares: u128) -> WithdrawMsg {
    WithdrawMsg { shares, amount0_min: 0, amount1_min: 0, to: s("user") }
}

fn balances(b0: u128, b1: u128) -> VaultBalancesResponse {
    VaultBalancesResponse { bal0: b0, bal1: b1, protocol_unclaimed_fees0: 1, protocol_unclaimed_fees1: 2, admin_unclaimed_fees0: 3, admin_unclaimed_fees1: 4 }
}

#[test]
fn withdrawal_refusals() {
    let v = admin_vault();
    let st = VaultState::default();
    let fees = FeesInfo::default();
    let funds = FundsInfo { available_balance0: 10_000, available_balance1: 15_000 };
    let w = |msg: WithdrawMsg, valid: bool, held: u128| withdraw(msg, &s(VAULT), valid, 15_000, held, &balances(10_000, 15_000), &v, st.clone(), &fees, &funds);
    assert_eq!(w(withdraw_msg(0), true, 100).unwrap_err(), WithdrawalError::ZeroSharesWithdrawal {});
    assert_eq!(w(withdraw_msg(10), false, 100).unwrap_err(), WithdrawalError::InvalidWithdrawalAddress(s("user")));
    let to_vault = WithdrawMsg { to: s(VAULT), ..withdraw_msg(10) };
    assert_eq!(w(to_vault, true, 100).unwrap_err(), WithdrawalError::CantWithdrawToContract(s(VAULT)));
    assert_eq!(
        w(withdraw_msg(101), true, 100).unwrap_err(),
        WithdrawalError::InvalidWithdrawalAmount { owned: s("100"), withdrawn: s("101") }
    );
    let wants_more = WithdrawMsg { amount0_min: 1_001, ..withdraw_msg(1_500) };
    assert_eq!(
        w(wants_more, true, 1_500).unwrap_err(),
        WithdrawalError::WithdrawnAmontsBelowMin { got: s("(1000, 1500)"), wanted: s("(1001, 0)") }
    );
}

#[test]
fn withdrawal_pays_the_proportion_and_owes_the_fees() {
    let v = admin_vault();
    let shares = vec![DexCoin { denom: s("pool-1"), amount: s("3000") }];
    let st = VaultState { base_position_shares: Some(shares), ..VaultState::default() };
    let fees = FeesInfo::default();
    let funds = FundsInfo { available_balance0: 100, available_balance1: 300 };
    let out = withdraw(withdraw_msg(5_000), &s(VAULT), true, 15_000, 5_000, &balances(9_000, 15_000), &v, st.clone(), &fees, &funds).unwrap();
    assert_eq!((out.amount0, out.amount1), (2_999, 4_999));
    assert_eq!(out.payout, vec![Coin { denom: s("untrn"), amount: 2_999 }, Coin { denom: s("uosmo"), amount: 4_999 }]);
    assert_eq!(out.burn, 5_000);
    assert_eq!(out.funds_info, FundsInfo { available_balance0: 67, available_balance1: 201 });
    assert_eq!((out.fees_info.protocol_tokens0_owned, out.fees_info.admin_tokens1_owned), (1, 4));
    // The scaled share reads as atomics of a 27-decimal number
    // ("0.000000000000000000000000999"), not as an integer: no removal is sent.
    assert!(out.removals.is_empty());
    assert_eq!(out.vault_state, st);

    // Withdrawing every share takes everything and closes every position.
    let all = withdraw(withdraw_msg(15_000), &s(VAULT), true, 15_000, 15_000, &balances(9_000, 15_000), &v, st, &fees, &funds).unwrap();
    assert_eq!((all.amount0, all.amount1), (9_000, 15_000));
    assert!(all.shares_proportion.is_max());
    assert!(all.vault_state.base_position_shares.is_none());
}

// ---- fees and governance ---------------------------------------------------

fn owed() -> FeesInfo {
    FeesInfo { protocol_tokens0_owned: 7, protocol_tokens1_owned: 0, admin_tokens0_owned: 0, admin_tokens1_owned: 9, ..FeesInfo::default() }
}

#[test]
fn protocol_fee_withdrawals() {
    let v = admin_vault();
    assert_eq!(
        withdraw_protocol_fees(&owed(), &v, &s("admin")).unwrap_err(),
        ProtocolOperationError::UnauthorizedProtocolAccount(s("withdraw_protocol_fees"))
    );
    let with_cost = FeesInfo { protocol_vault_creation_tokens_owned: 1000, ..owed() };
    let (f, sent) = withdraw_protocol_fees(&with_cost, &v, &s(PROTOCOL)).unwrap();
    assert_eq!(sent, vec![Coin { denom: s("untrn"), amount: 7 }, Coin { denom: s("untrn"), amount: 1000 }]);
    assert_eq!((f.protocol_tokens0_owned, f.protocol_vault_creation_tokens_owned), (0, 0));
    assert_eq!(f.admin_tokens1_owned, 9);
}

#[test]
fn admin_fee_withdrawals() {
    let v = admin_vault();
    assert_eq!(
        withdraw_admin_fees(&owed(), &v, &s("user")).unwrap_err(),
        AdminOperationError::UnauthorizedAdminAccount(s("withdraw_admin_fees"))
    );
    let (f, to, sent) = withdraw_admin_fees(&owed(), &v, &s("admin")).unwrap();
    assert_eq!(to, s("admin"));
    assert_eq!(sent, vec![Coin { denom: s("uosmo"), amount: 9 }]);
    assert_eq!((f.admin_tokens0_owned, f.admin_tokens1_owned), (0, 0));
    assert_eq!(f.protocol_tokens0_owned, 7);
    // A second withdrawal sends nothing.
    let (_, _, again) = withdraw_admin_fees(&f, &v, &s("admin")).unwrap();
    assert!(again.is_empty());

    let anyone = VaultRebalancerInstantiateMsg::Anyone { price_factor_before_rebalance: s("1"), seconds_before_rabalance: 0 };
    let no_admin = VaultInfo::new(info_msg(None, anyone), true, true).unwrap();
    assert_eq!(
        withdraw_admin_fees(&owed(), &no_admin, &s("admin")).unwrap_err(),
        AdminOperationError::NonExistantAdmin(s("withdraw_admin_fees"))
    );
}

#[test]
fn governance_changes() {
    let v = admin_vault();
    let fees = owed();
    let same = info_msg(Some("admin2"), VaultRebalancerInstantiateMsg::Admin {});
    assert_eq!(
        change_vault_info(same.clone(), &v, &s("vault"), &s("VLT"), &fees, &s("user"), true, true).unwrap_err(),
        AdminOperationError::UnauthorizedAdminAccount(s("change_vault_info"))
    );
    let other_pair = VaultInfoInstantiateMsg { token_0: s("uatom"), ..same.clone() };
    assert_eq!(
        change_vault_info(other_pair, &v, &s("vault"), &s("VLT"), &fees, &s("admin"), true, true).unwrap_err(),
        AdminOperationError::ImmutableReInstantiation(s("pool_id"))
    );
    assert_eq!(
        change_vault_info(same.clone(), &v, &s("other"), &s("VLT"), &fees, &s("admin"), true, true).unwrap_err(),
        AdminOperationError::ImmutableReInstantiation(s("vault_name"))
    );
    let (nv, nf) = change_vault_info(same, &v, &s("vault"), &s("VLT"), &fees, &s("admin"), true, true).unwrap();
    assert_eq!(nv.admin, Some(s("admin2")));
    assert!(nf.is_none());
    let anyone = VaultRebalancerInstantiateMsg::Anyone { price_factor_before_rebalance: s("1"), seconds_before_rabalance: 0 };
    assert_eq!(
        change_vault_info(info_msg(None, anyone.clone()), &v, &s("vault"), &s("VLT"), &fees, &s("admin"), true, true).unwrap_err(),
        AdminOperationError::RemovingAdminWithUncollectedAdminFees()
    );
    let (_, nf) = change_vault_info(info_msg(None, anyone), &v, &s("vault"), &s("VLT"), &FeesInfo::default(), &s("admin"), true, true).unwrap();
    assert!(nf.unwrap().admin_fee.0.is_zero());

    assert!(change_vault_parameters(params("3", "1.2", "0.5"), &v, &s("admin")).is_ok());
    assert_eq!(
        change_vault_parameters(params("3", "1.2", "2"), &v, &s("admin")).unwrap_err(),
        AdminOperationError::ReInstantiation(InstantiationError::InvalidWeight(s("2")))
    );
    assert_eq!(
        change_admin_fee(s("1"), &v, &fees, &s("admin")).unwrap_err(),
        AdminOperationError::ReInstantiation(InstantiationError::InvalidAdminFee { max: s("0.1"), got: s("1") })
    );
    assert_eq!(change_admin_fee(s("0.01"), &v, &fees, &s("admin")).unwrap().admin_fee.0 .0, Dec27::from_str("0.01").unwrap());
    assert_eq!(
        change_protocol_fee(s("0.01"), &fees, &s("admin")).unwrap_err(),
        ProtocolOperationError::UnauthorizedProtocolAccount(s("withdraw_protocol_fees"))
    );
    assert_eq!(change_protocol_fee(s("0.01"), &fees, &s(PROTOCOL)).unwrap().protocol_fee.0 .0, Dec27::from_str("0.01").unwrap());
}

// ---- rebalancing pieces ----------------------------------------------------

fn entry(tick: i64) -> TickLiquidity {
    TickLiquidity { liquidity: Some(Liquidity::PoolReserves { tick_index_taker_to_maker: Some(tick) }) }
}

#[test]
fn who_may_rebalance() {
    let price = Dec27::one();
    let twap = Some(Dec27::one());
    let admin = admin_vault();
    let st = VaultState::default();
    assert_eq!(can_rebalance(&admin, &st, &price, None, &s("admin"), 0), Err(RebalanceError::PoolWasJustCreated()));
    assert_eq!(can_rebalance(&admin, &st, &price, twap, &s("admin"), 0), Ok(()));

    let delegate = VaultInfo::new(info_msg(Some("admin"), VaultRebalancerInstantiateMsg::Delegate { rebalancer: s("bot") }), true, true).unwrap();
    assert_eq!(can_rebalance(&delegate, &st, &price, twap, &s("bot"), 0), Ok(()));
    assert_eq!(
        can_rebalance(&delegate, &st, &price, twap, &s("admin"), 0),
        Err(RebalanceError::UnauthorizedDelegateAccount { delegate: s("bot"), got: s("admin") })
    );

    // Anyone, after the price moved more than 1% since the last rebalance,
    // but the average price is more than 1% away from the price.
    let anyone = VaultRebalancerInstantiateMsg::Anyone { price_factor_before_rebalance: s("1.01"), seconds_before_rabalance: 10 };
    let public = VaultInfo::new(info_msg(None, anyone), true, true).unwrap();
    let last = VaultState {
        last_price_and_timestamp: Some(StateSnapshot { last_price: Dec27::one(), last_timestamp: 1_000_000_000_000 }),
        ..VaultState::default()
    };
    let moved = Dec27::from_str("1.05").unwrap();
    let now = 1_020_000_000_000;
    assert_eq!(
        can_rebalance(&public, &last, &moved, twap, &s("user"), now),
        Err(RebalanceError::PriceMovedTooMuchInLastMinute { price: s("1.05"), twap: s("1") })
    );
    assert_eq!(can_rebalance(&public, &last, &moved, Some(Dec27::from_str("1.045").unwrap()), &s("user"), now), Ok(()));
    // Within the factor: refused, with the price and the factor.
    assert_eq!(
        can_rebalance(&public, &last, &Dec27::from_str("1.005").unwrap(), twap, &s("user"), now),
        Err(RebalanceError::PriceHasntMovedEnough { price: s("1.005"), factor: s("1.01") })
    );
}

#[test]
fn deposits_of_a_position_over_its_ticks() {
    let pair = PairId::new([s("untrn"), s("uosmo")]).unwrap();
    // Lowest token0 tick -(-2) = 2, lowest token1 tick 6: the middle is 4 and
    // token0 is the cheaper one.
    let msg = create_position_msg(1, 9, &Dec27::zero(), &Dec27::zero(), &pair, &s(VAULT), &vec![entry(-2)], &vec![entry(6)]);
    assert_eq!(msg.creator, s(VAULT));
    assert_eq!(msg.receiver, s(VAULT));
    assert_eq!((msg.token_a.clone(), msg.token_b.clone()), (s("untrn"), s("uosmo")));
    assert_eq!(msg.tick_indexes_a_to_b, vec![1, 2, 3, 4, 5, 6, 7, 8]);
    assert_eq!(msg.amounts_a, vec![s("10"); 8]);
    // token1 from the first tick at most two below the middle.
    assert_eq!(msg.amounts_b, vec![s("0"), s("10"), s("10"), s("10"), s("10"), s("10"), s("10"), s("10")]);
    assert_eq!(msg.fees, vec![2u64; 8]);
    let options = DepositOptions { disable_autoswap: false, fail_tx_on_bel: true, swap_on_deposit: true, swap_on_deposit_slop_tolerance_bps: 0 };
    assert_eq!(msg.options, vec![options; 8]);
    let empty = create_position_msg(5, 5, &Dec27::zero(), &Dec27::zero(), &pair, &s(VAULT), &vec![entry(-2)], &vec![entry(6)]);
    assert!(empty.tick_indexes_a_to_b.is_empty());
}

#[test]
fn removing_liquidity_scales_each_share() {
    let shares = vec![DexCoin { denom: s("a"), amount: s("1000") }, DexCoin { denom: s("b"), amount: s("3") }];
    let st = VaultState { limit_position_shares: Some(shares), ..VaultState::default() };
    let half = Weight::new("0.5").unwrap();
    // The share amount is scaled as atomics of a 27-decimal number.
    assert_eq!(
        calc_shares_proportion(&DexCoin { denom: s("a"), amount: s("3") }, &half),
        DexCoin { denom: s("a"), amount: s("0.000000000000000000000000001") }
    );
    // Every share scaled.
    let all = remove_liquidity_msg(PositionType::Limit, &st, &s(VAULT), &half).unwrap();
    assert_eq!(all.creator, s(VAULT));
    assert_eq!(
        all.shares_to_remove,
        vec![
            DexCoin { denom: s("a"), amount: s("0.0000000000000000000000005") },
            DexCoin { denom: s("b"), amount: s("0.000000000000000000000000001") },
        ]
    );
    // Only those whose scaled amount reads as a positive integer: none here.
    assert!(duality_helpers::remove_liquidity_msg(PositionType::Limit, &st, &s(VAULT), &half).is_none());
    assert!(remove_liquidity_msg(PositionType::Base, &st, &s(VAULT), &half).is_none());
    assert!(remove_liquidity_msg(PositionType::Limit, &st, &s(VAULT), &Weight::zero()).is_none());
    assert!(remove_liquidity_msgs(&st, &s(VAULT), &Weight::max()).is_empty());
    // A share large enough to stay an integer once scaled is kept.
    let big = vec![DexCoin { denom: s("a"), amount: s("2000000000000000000000000000") }];
    let st = VaultState { full_range_position_shares: Some(big), ..VaultState::default() };
    let kept = duality_helpers::remove_liquidity_msg(PositionType::FullRange, &st, &s(VAULT), &half).unwrap();
    assert_eq!(kept.shares_to_remove, vec![DexCoin { denom: s("a"), amount: s("1") }]);
    assert_eq!(remove_liquidity_msgs(&st, &s(VAULT), &Weight::max()).len(), 1);
}

#[test]
fn replies_record_the_positions() {
    let shares = vec![DexCoin { denom: s("pool-1"), amount: s("10") }];
    let st = reply(VaultState::default(), 1, shares.clone());
    assert_eq!(st.base_position_shares, Some(shares.clone()));
    assert!(st.full_range_position_shares.is_none());
    let st = reply(st, 0, shares.clone());
    let st = reply(st, 2, shares.clone());
    assert_eq!(st.full_range_position_shares, Some(shares.clone()));
    assert_eq!(st.limit_position_shares, Some(shares));
}

#[test]
fn proportional_balances_open_no_limit_position() {
    let v = admin_vault();
    let p = VaultParameters::new(params("2", "1.45", "0.55")).unwrap();
    let liq = Some(vec![entry(0)]);
    let b = VaultBalancesResponse { bal0: 10_000, bal1: 10_000, ..Default::default() };
    let plan = magma_core::execute::rebalance(&v, &VaultState::default(), &p, &b, &FeesInfo::default(), &liq, &liq, Some(Dec27::one()), &s("admin"), 5, &s(VAULT)).unwrap();
    assert!(plan.positions.iter().all(|x| x.position != PositionType::Limit));
    assert_eq!(plan.positions.len(), 2);
    let total0: u128 = plan.positions.iter().map(|x| atomics(&x.amount0)).sum();
    assert_eq!(total0, 10_000);
    assert!(PriceFactor::new("1").unwrap().is_one());
}

#[test]
fn rebalance_refusals() {
    let v = admin_vault();
    let p = VaultParameters::new(params("2", "1.45", "0.55")).unwrap();
    let b = VaultBalancesResponse { bal0: 10_000, bal1: 10_000, ..Default::default() };
    let st = VaultState::default();
    let fees = FeesInfo::default();
    let liq = Some(vec![entry(0)]);
    let run = |l0: &Option<Vec<TickLiquidity>>, l1: &Option<Vec<TickLiquidity>>, twap: Option<Dec27>, who: &str, bals: &VaultBalancesResponse| {
        magma_core::execute::rebalance(&v, &st, &p, bals, &fees, l0, l1, twap, &s(who), 5, &s(VAULT))
    };
    assert_eq!(run(&None, &None, Some(Dec27::one()), "admin", &b).unwrap_err(), RebalanceError::CannotFetchPrice());
    assert_eq!(run(&liq, &liq, None, "admin", &b).unwrap_err(), RebalanceError::PoolWasJustCreated());
    assert_eq!(
        run(&liq, &liq, Some(Dec27::one()), "user", &b).unwrap_err(),
        RebalanceError::UnauthorhizedNonAdminAccount { admin: s("admin"), got: s("user") }
    );
    assert_eq!(
        run(&liq, &liq, Some(Dec27::one()), "admin", &VaultBalancesResponse::default()).unwrap_err(),
        RebalanceError::NothingToRebalance {}
    );
}

// ---- the tests made before calling the core ---------------------------------

#[test]
fn tests_before_deposits_and_withdrawals() {
    let v = admin_vault();
    let msg = deposit_msg(5_000, 5_000);
    assert!(deposit_passes_checks(&msg, &sent(5_000, 5_000), &v, &s(VAULT), true));
    assert!(!deposit_passes_checks(&msg, &sent(5_000, 4_999), &v, &s(VAULT), true));
    assert!(!deposit_passes_checks(&msg, &sent(5_000, 5_000), &v, &s(VAULT), false));
    assert!(deposit_would_complete(&msg, 0, 0, 0, &FundsInfo::default()));
    // Known funds that would overflow.
    let full = FundsInfo { available_balance0: u128::MAX, available_balance1: 0 };
    assert!(!deposit_would_complete(&msg, 0, 0, 0, &full));
    // A vault with shares but no tokens cannot price a deposit.
    assert!(!shares_would_compute(5_000, 5_000, 0, 0, 10));
    assert!(shares_would_compute(5_000, 5_000, 10, 10, 10));
    assert!(!shares_would_compute(u128::MAX, u128::MAX, 1, 1, u128::MAX));

    let w = withdraw_msg(100);
    let st = VaultState::default();
    assert!(withdrawal_would_complete(&w, 1_000, 100, &balances(10, 10), &st, &FeesInfo::default()));
    // More shares than the supply.
    assert!(!withdrawal_would_complete(&w, 50, 100, &balances(10, 10), &st, &FeesInfo::default()));
    let unreadable = VaultState { base_position_shares: Some(vec![DexCoin { denom: s("a"), amount: s("1.5") }]), ..VaultState::default() };
    assert!(!positions_read(&unreadable));
    assert!(positions_read(&st));
    assert!(!withdrawal_would_complete(&w, 1_000, 100, &balances(10, 10), &unreadable, &FeesInfo::default()));
}

#[test]
fn tests_before_rebalances() {
    let p = VaultParameters::new(params("2", "1.45", "0.55")).unwrap();
    let one = Dec27::one();
    let fine = VaultBalancesResponse { bal0: 10_000, bal1: 10_000, ..Default::default() };
    assert!(rebalance_would_complete(&p, &fine, &FeesInfo::default(), &VaultState::default(), &one));
    // Three atomics against two: the balanced amounts are too small to keep
    // the price within 0.3%.
    let tiny = VaultBalancesResponse { bal0: 3, bal1: 2, ..Default::default() };
    assert!(!rebalance_would_complete(&p, &tiny, &FeesInfo::default(), &VaultState::default(), &Dec27::from_str("1.4").unwrap()));
    // Fees owed that would overflow.
    let owed = FeesInfo { admin_tokens0_owned: u128::MAX, ..FeesInfo::default() };
    let with_fees = VaultBalancesResponse { admin_unclaimed_fees0: 1, ..fine };
    assert!(!rebalance_would_complete(&p, &with_fees, &owed, &VaultState::default(), &one));
    assert_eq!(checked_calc_x0(&PriceFactor::new("2").unwrap(), &Weight::zero(), Dec27::raw(5)), Some(Dec27::zero()));
    assert_eq!(
        checked_calc_x0(&PriceFactor::new("2").unwrap(), &Weight::new("0.55").unwrap(), Dec27::raw(750)),
        Some(magma_core::utils::calc_x0(&PriceFactor::new("2").unwrap(), &Weight::new("0.55").unwrap(), Dec27::raw(750)))
    );
}

#[test]
fn withdrawals_stay_within_their_share() {
    // 1 share of 3 of a balance of 10 pays 3, not more than a third.
    let v = admin_vault();
    let funds = FundsInfo { available_balance0: 10, available_balance1: 10 };
    let out = withdraw(withdraw_msg(1), &s(VAULT), true, 3, 1, &balances(10, 10), &v, VaultState::default(), &FeesInfo::default(), &funds).unwrap();
    assert_eq!((out.amount0, out.amount1), (3, 3));
    assert!(out.amount0 * 3 <= 10);
}

#[test]
fn one_public_rebalance_per_block() {
    let anyone = VaultRebalancerInstantiateMsg::Anyone { price_factor_before_rebalance: s("1"), seconds_before_rabalance: 0 };
    let public = VaultInfo::new(info_msg(None, anyone), true, true).unwrap();
    let now = 2_000_000_000_000;
    let st = VaultState {
        last_price_and_timestamp: Some(StateSnapshot { last_price: Dec27::one(), last_timestamp: now }),
        ..VaultState::default()
    };
    let price = Dec27::from_str("3").unwrap();
    assert_eq!(can_rebalance(&public, &st, &price, Some(price), &s("anyone"), now), Err(RebalanceError::CantRebalanceTwicePerBlock()));
    assert_eq!(can_rebalance(&public, &st, &price, Some(price), &s("anyone"), now + 1), Ok(()));
}

#[test]
fn clock_values_a_rebalance_can_check() {
    let anyone = VaultRebalancer::Anyone { price_factor_before_rebalance: PriceFactor::new("1").unwrap(), time_before_rabalance: 10 };
    let at = |t: u64| Some(StateSnapshot { last_price: Dec27::one(), last_timestamp: t });
    assert!(rebalance_clock_fits(&VaultRebalancer::Admin {}, &at(5), u64::MAX));
    assert!(rebalance_clock_fits(&anyone, &None, u64::MAX));
    assert!(!rebalance_clock_fits(&anyone, &at(0), u64::MAX));
    // The last rebalance is more than a second ahead of the block.
    assert!(!rebalance_clock_fits(&anyone, &at(5_000_000_000), 1_000_000_000));
    // A wait that ends in a later second than the block's can be checked.
    assert!(rebalance_clock_fits(&anyone, &at(1_000_000_000), 2_000_000_000));
    // A wait whose end overflows cannot.
    let long = VaultRebalancer::Anyone { price_factor_before_rebalance: PriceFactor::new("1").unwrap(), time_before_rabalance: u64::MAX / 1_000_000_000 };
    assert!(!rebalance_clock_fits(&long, &at(1_000_000_000), 2_000_000_000));
    assert!(rebalance_clock_fits(&anyone, &at(1_500_000_000), 11_200_000_000));
    assert!(rebalance_clock_fits(&anyone, &at(1_000_000_000), 11_000_000_000));
}
