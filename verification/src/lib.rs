//! Verified core of a concentrated-liquidity vault: share accounting,
//! parameter validation, rebalancing plans and the checks that guard them.

pub mod constants;
pub mod contract;
pub mod duality_helpers;
pub mod error;
pub mod execute;
pub mod math;
pub mod msg;
pub mod query;
pub mod state;
pub mod text;
pub mod utils;
