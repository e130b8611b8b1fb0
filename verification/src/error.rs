//! Errors of the vault operations.

use vstd::prelude::*;

verus! {

/// Why a vault could not be set up (or reconfigured).
#[derive(Debug, Clone, PartialEq, Eq)]
pub enum InstantiationError {
    VaultCreationCostNotPaid { cost: String, denom: String, got: String },
    InvalidPoolId(u64),
    InvalidDelegateAddress(String),
    InvalidAdminAddress(String),
    InvalidAdminFee { max: String, got: String },
    AdminFeeWithoutAdmin {},
    ContradictoryConfig { reason: String },
    InvalidPriceFactor(String),
    InvalidWeight(String),
}

/// Why a deposit was refused.
#[derive(Debug, Clone, PartialEq, Eq)]
pub enum DepositError {
    ImproperSentAmounts { expected: String, got: String },
    ZeroTokensSent {},
    ShareholderCantBeContract(String),
    InvalidShareholderAddress(String),
    DepositedAmountsBelowMin { used: String, wanted: String },
    DepositedAmountBelowMinLiquidity { min_liquidity: String, got: String },
}

/// Why a rebalance was refused.
#[derive(Debug, Clone, PartialEq, Eq)]
pub enum RebalanceError {
    UnauthorhizedNonAdminAccount { admin: String, got: String },
    UnauthorizedDelegateAccount { delegate: String, got: String },
    CantRebalanceTwicePerBlock(),
    PriceHasntMovedEnough { price: String, factor: String },
    PriceMovedTooMuchInLastMinute { price: String, twap: String },
    PoolWasJustCreated(),
    NotEnoughTimePassed { time_left: u64 },
    NothingToRebalance {},
    PairWithoutPrice(String),
    FailedToConvertPriceToTick { price: String, err: String },
    CannotFetchPrice(),
}

/// Why a withdrawal was refused.
#[derive(Debug, Clone, PartialEq, Eq)]
pub enum WithdrawalError {
    ZeroSharesWithdrawal {},
    InvalidWithdrawalAddress(String),
    CantWithdrawToContract(String),
    InvalidWithdrawalAmount { owned: String, withdrawn: String },
    WithdrawnAmontsBelowMin { got: String, wanted: String },
}

/// Why a protocol operation was refused.
#[derive(Debug, Clone, PartialEq, Eq)]
pub enum ProtocolOperationError {
    UnauthorizedProtocolAccount(String),
    InvalidProtocolFee { max: String, got: String },
}

/// Why an admin operation was refused.
#[derive(Debug, Clone, PartialEq, Eq)]
pub enum AdminOperationError {
    UnauthorizedAdminAccount(String),
    NonExistantAdmin(String),
    ImmutableReInstantiation(String),
    ReInstantiation(InstantiationError),
    RemovingAdminWithUncollectedAdminFees(),
}

/// Why the price of a pair could not be read.
#[derive(Debug, Clone, PartialEq, Eq)]
pub enum DexError {
    CannotFetchPrice(),
}

} // verus!
