//! Messages the vault takes and the answers it gives.

use vstd::prelude::*;

verus! {

/// Parameters of a vault, as decimal strings.
#[derive(Debug, Clone, PartialEq, Eq)]
pub struct VaultParametersInstantiateMsg {
    /// Price factor of the base position (18 decimals, at least 1).
    pub base_factor: String,
    /// Price factor of the limit position (18 decimals, at least 1).
    pub limit_factor: String,
    /// Weight of the full range position (27 decimals, in `[0, 1]`).
    pub full_range_weight: String,
}

/// Who may rebalance a vault, as requested.
#[derive(Debug, Clone, PartialEq, Eq)]
pub enum VaultRebalancerInstantiateMsg {
    /// Only the vault admin.
    Admin {},
    /// Only the given address.
    Delegate { rebalancer: String },
    /// Anyone, once the price has moved by the given factor and the given
    /// time has passed since the last rebalance.
    Anyone { price_factor_before_rebalance: String, seconds_before_rabalance: u32 },
}

/// Identity and governance of a vault, as requested.
#[derive(Debug, Clone, PartialEq, Eq)]
pub struct VaultInfoInstantiateMsg {
    pub token_0: String,
    pub token_1: String,
    pub vault_name: String,
    pub vault_symbol: String,
    pub admin: Option<String>,
    /// Decimal string in `[0, 0.1]`.
    pub admin_fee: String,
    pub rebalancer: VaultRebalancerInstantiateMsg,
}

/// Everything a vault is created with.
#[derive(Debug, Clone, PartialEq, Eq)]
pub struct InstantiateMsg {
    pub vault_info: VaultInfoInstantiateMsg,
    pub vault_parameters: VaultParametersInstantiateMsg,
}

/// A deposit of both tokens, minting shares to `to`.
#[derive(Debug, Clone, PartialEq, Eq)]
pub struct DepositMsg {
    pub amount0: u128,
    pub amount1: u128,
    pub amount0_min: u128,
    pub amount1_min: u128,
    pub to: String,
}

/// A withdrawal of `shares`, sending the tokens to `to`.
#[derive(Debug, Clone, PartialEq, Eq)]
pub struct WithdrawMsg {
    pub shares: u128,
    pub amount0_min: u128,
    pub amount1_min: u128,
    pub to: String,
}

/// What the vault holds, split between depositors and fee owners.
#[derive(Debug, Clone, Copy, PartialEq, Eq, Default)]
pub struct VaultBalancesResponse {
    /// All of token0 the depositors own.
    pub bal0: u128,
    /// All of token1 the depositors own.
    pub bal1: u128,
    pub protocol_unclaimed_fees0: u128,
    pub protocol_unclaimed_fees1: u128,
    pub admin_unclaimed_fees0: u128,
    pub admin_unclaimed_fees1: u128,
}

/// Amounts in one position and the fees it has earned.
#[derive(Debug, Clone, Copy, PartialEq, Eq, Default)]
pub struct PositionBalancesWithFeesResponse {
    pub bal0: u128,
    pub bal1: u128,
    pub bal0_fees: u128,
    pub bal1_fees: u128,
}

/// Shares a deposit would mint, and how much of each token it would use.
#[derive(Debug, Clone, Copy, PartialEq, Eq, Default)]
pub struct CalcSharesAndUsableAmountsResponse {
    pub shares: u128,
    pub usable_amount0: u128,
    pub usable_amount1: u128,
}

} // verus!
