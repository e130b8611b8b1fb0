//! Constants of the vault.

use vstd::prelude::*;

verus! {

/// Lowest tick of the pools the vault works with.
pub const MIN_TICK: i64 = -529_715;

/// Highest tick of the pools the vault works with.
pub const MAX_TICK: i64 = 529_715;

/// Shares minted to the vault itself on the first deposit, and the amount of
/// one token that a deposit must exceed.
pub const MIN_LIQUIDITY: u128 = 1000;

/// Length of the price average window, in seconds.
pub const TWAP_SECONDS: u64 = 60;

/// The account that receives protocol fees.
pub const PROTOCOL: &'static str = "osmo1a8gd76fw6umx652v7cs73vnge2zju8s8hcm86t";

/// Denomination in which the vault creation cost is paid.
pub const VAULT_CREATION_COST_DENOM: &'static str = "untrn";

/// Highest vault creation cost (20 untrn with 6 decimals).
pub const MAX_VAULT_CREATION_COST: u128 = 20_000_000;

/// Atomics of the highest protocol fee, `0.1`, in 27 decimals.
pub const MAX_PROTOCOL_FEE_ATOMICS: u128 = 100_000_000_000_000_000_000_000_000;

} // verus!
