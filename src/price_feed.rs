//! Messages of the fixed-price feed used in integration setups.

use vstd::prelude::*;

verus! {

#[derive(Clone, Debug, PartialEq, Eq)]
pub struct InstantiateMsg {
    pub name: String,
    pub symbol: String,
    pub decimals: u8,
    pub address_cw20: String,
    pub address_collateral_manager: String,
    pub total_mint: u128,
}

#[derive(Clone, Debug, PartialEq, Eq)]
pub enum ExecuteMsg {
    UpdatePrice { asset_name: String, new_price: u128 },
}

#[derive(Clone, Debug, PartialEq, Eq)]
pub enum QueryMsg {
    GetPrice { asset_name: String },
}

} // verus!
