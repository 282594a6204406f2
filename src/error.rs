//! Why an operation was refused.

use vstd::prelude::*;

verus! {

/// The failures of the collateral manager. Every failure leaves its state as
/// it was.
#[derive(Clone, Debug, PartialEq, Eq)]
pub enum ContractError {
    /// The caller is not the admin.
    Unauthorized,
    /// An address handed in for validation was refused.
    InvalidAddress,
    /// An asset of that name is registered already.
    AssetAlreadySupported,
    /// The asset is not registered.
    AssetNotSupported,
    /// The asset cannot be held as collateral and nothing of it is borrowed.
    AssetNotCollaterlizeable,
    /// The deposit would leave a positive balance of an asset that cannot be
    /// held as collateral.
    CannotBecomeCollateral,
    /// The withdrawing account holds none of the asset.
    AssetIsZero,
    /// The withdrawal exceeds the collateral held.
    NotEnoughAsset { coin_denom: String, current_amount: u128, withdraw_amount: u128 },
    /// The account's collateral would not cover its debt after the withdrawal.
    NotEnoughTotalCollateral,
    /// A debit larger than the balance.
    InsufficientBalance,
    /// An amount or a value left the 128-bit range.
    Overflow,
    /// No price was supplied for an asset that the valuation needs.
    PriceUnavailable,
    /// No price source is registered for the asset.
    OracleNotFound,
    /// A token contract sent an asset that is registered under another contract.
    ContractMismatch,
    /// A token contract sent an asset that is registered as a native coin.
    NotContractToken,
    /// A mint of nothing was asked for.
    InvalidZeroAmount,
}

} // verus!
