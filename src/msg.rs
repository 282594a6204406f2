//! The messages that callers send to the collateral manager.

use vstd::prelude::*;
use crate::asset::AssetInfoUnvalidated;

verus! {

#[derive(Clone, Copy, Debug, PartialEq, Eq, Structural)]
pub struct InstantiateMsg {}

/// A deposit of contract tokens: the token contract reports who sent how much,
/// with the sender's instruction encoded in `msg`.
#[derive(Clone, Debug, PartialEq, Eq)]
pub struct Cw20ReceiveMsg {
    pub sender: String,
    pub amount: u128,
    pub msg: Vec<u8>,
}

#[derive(Clone, Debug, PartialEq, Eq)]
pub enum ExecuteMsg {
    /// Deposit the native coins sent along as collateral.
    NativeDeposit {},
    /// Settle a native borrow; not implemented.
    NativeSettle {},
    /// Withdraw native coins.
    NativeWithdraw { coin_denom: String, amount: u128 },
    /// Liquidate an account; not implemented.
    NativeLiquidate {},
    /// Contract tokens sent to this contract.
    Receive(Cw20ReceiveMsg),
    AddSupportedAsset { asset_name: String, asset_info_unvalidated: AssetInfoUnvalidated },
    RemoveSupportedAsset { asset_name: String },
    UpdateAdmin { new_admin: String },
}

/// The instruction that comes with contract tokens.
#[derive(Clone, Debug, PartialEq, Eq)]
pub enum Cw20HookMsg {
    /// Deposit more collateral.
    Deposit { asset_name: String },
    /// Settle a loan; not implemented.
    Settle { asset_name: String },
    /// Liquidate an account; not implemented.
    Liquidate {},
    /// Withdraw contract tokens; not implemented.
    Withdraw { asset_name: String, amount: u128 },
}

#[derive(Clone, Debug, PartialEq, Eq)]
pub enum ReceiveNativeMsg {
    /// Deposit more collateral.
    Deposit { asset_name: String },
    /// Settle a loan; not implemented.
    Settle { asset_name: String },
    /// Liquidate an account; not implemented.
    Liquidate {},
}

#[derive(Clone, Debug, PartialEq, Eq)]
pub enum QueryMsg {
    /// The collateral and borrow of `address` in `asset_name`; zero where none.
    Balance { address: String, asset_name: String },
    /// The registered definition of `asset_name`, if any.
    AssetInfo { asset_name: String },
}

/// Settings of a deployment: the highest loan-to-value ratio and the oracle
/// manager that prices come from.
#[derive(Clone, Debug, PartialEq, Eq)]
pub struct Config {
    pub max_ltv: crate::decimal::Decimal,
    pub oracle_manager_addr: String,
}

} // verus!
