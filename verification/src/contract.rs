//! Setting a vault up, and recording the positions the dex opened for it.

use vstd::prelude::*;

use crate::error::InstantiationError;
use crate::msg::InstantiateMsg;
use crate::state::{
    self, Coin, DexCoin, FeesInfo, FundsInfo, VaultInfo, VaultParameters, VaultState,
};

verus! {

/// The vault's share token.
#[derive(Clone, Debug, PartialEq, Eq)]
pub struct TokenInfo {
    pub name: String,
    pub symbol: String,
    pub decimals: u8,
    pub total_supply: u128,
    /// The only account that may mint shares: the vault.
    pub minter: String,
}

/// Everything a new vault starts with.
#[derive(Clone, Debug, PartialEq, Eq)]
pub struct Instantiation {
    pub vault_info: VaultInfo,
    pub vault_parameters: VaultParameters,
    pub vault_state: VaultState,
    pub fees_info: FeesInfo,
    pub funds_info: FundsInfo,
    pub token_info: TokenInfo,
}

/// Sets up a vault at `contract_addr`, paid for with `funds`. `admin_valid`
/// and `delegate_valid` tell whether the chain accepts the admin and the
/// delegate address. The identity and governance are checked first, then the
/// parameters, then the fees; the vault starts without positions, funds or
/// shares, and mints its own shares (18 decimals).
pub fn instantiate(
    msg: InstantiateMsg,
    contract_addr: &String,
    funds: &Vec<Coin>,
    admin_valid: bool,
    delegate_valid: bool,
) -> (r: Result<Instantiation, InstantiationError>)
    ensures
        ({
            let info = msg.vault_info;
            let params = msg.vault_parameters;
            let info_ok = state::vault_info_accepted(info, admin_valid, delegate_valid);
            let params_ok = state::vault_parameters_accepted(params);
            let fees_ok = state::fees_accepted(info.admin_fee, info.admin, funds@);
            if !info_ok {
                r matches Err(e) && state::vault_info_outcome(info, admin_valid, delegate_valid, Err(e))
            } else if !params_ok {
                r matches Err(e) && state::vault_parameters_outcome(params, Err(e))
            } else if !fees_ok {
                r matches Err(e) && state::fees_outcome(info.admin_fee, info.admin, funds@, Err(e))
            } else {
                r matches Ok(i)
                    && state::vault_info_outcome(info, admin_valid, delegate_valid, Ok(i.vault_info))
                    && state::vault_parameters_outcome(params, Ok(i.vault_parameters))
                    && state::fees_outcome(info.admin_fee, info.admin, funds@, Ok(i.fees_info))
                    && i.vault_state.full_range_position_shares is None
                    && i.vault_state.base_position_shares is None
                    && i.vault_state.limit_position_shares is None
                    && i.vault_state.last_price_and_timestamp is None
                    && i.funds_info == (FundsInfo { available_balance0: 0, available_balance1: 0 })
                    && i.token_info.name == info.vault_name
                    && i.token_info.symbol == info.vault_symbol
                    && i.token_info.decimals == 18
                    && i.token_info.total_supply == 0
                    && i.token_info.minter@ == contract_addr@
            }
        }),
{
    let InstantiateMsg { vault_info: info, vault_parameters: params } = msg;
    let admin_fee = info.admin_fee.clone();
    let name = info.vault_name.clone();
    let symbol = info.vault_symbol.clone();
    let vault_info = VaultInfo::new(info, admin_valid, delegate_valid)?;
    let vault_parameters = VaultParameters::new(params)?;
    let vault_state = VaultState::default();
    let fees_info = FeesInfo::new(admin_fee, &vault_info, funds)?;
    let funds_info = FundsInfo { available_balance0: 0, available_balance1: 0 };
    let token_info = TokenInfo { name, symbol, decimals: 18, total_supply: 0, minter: contract_addr.clone() };
    Ok(Instantiation { vault_info, vault_parameters, vault_state, fees_info, funds_info, token_info })
}

/// Records the shares the dex issued for a position the vault opened; the
/// reply `id` names the position: 0 for the full range one, 1 for the base
/// one, 2 for the limit one.
pub fn reply(vault_state: VaultState, id: u64, shares_issued: Vec<DexCoin>) -> (r: VaultState)
    requires
        id < 3,
    ensures
        id == 0 ==> r == (VaultState { full_range_position_shares: Some(shares_issued), ..vault_state }),
        id == 1 ==> r == (VaultState { base_position_shares: Some(shares_issued), ..vault_state }),
        id == 2 ==> r == (VaultState { limit_position_shares: Some(shares_issued), ..vault_state }),
{
    let mut vault_state = vault_state;
    if id == 0 {
        vault_state.full_range_position_shares = Some(shares_issued);
    } else if id == 1 {
        vault_state.base_position_shares = Some(shares_issued);
    } else {
        vault_state.limit_position_shares = Some(shares_issued);
    }
    vault_state
}

} // verus!
