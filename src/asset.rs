//! Definitions of the assets that the registry accepts.

use vstd::prelude::*;
use crate::decimal::Decimal;
use crate::error::ContractError;

verus! {

/// An asset as registered, its contract address validated.
#[derive(Clone, Debug, PartialEq, Eq)]
pub enum AssetInfo {
    /// A borrow-backed asset: deposits first repay what is borrowed.
    FutureAsset {
        asset_name: String,
        contract_addr: String,
        collateralizeable: bool,
        ratio: Decimal,
        underlying: NormalAssetInfoUnvalidated,
        decimals: u128,
    },
    NormalAsset(NormalAssetInfo),
}

#[derive(Clone, Debug, PartialEq, Eq)]
pub enum NormalAssetInfo {
    CW20Token {
        asset_name: String,
        contract_addr: String,
        collateralizeable: bool,
        ratio: Decimal,
        decimals: u128,
    },
    NativeToken { denom: String, collateralizeable: bool, ratio: Decimal, decimals: u128 },
}

/// An asset as submitted for registration, its address not yet validated.
#[derive(Clone, Debug, PartialEq, Eq)]
pub enum AssetInfoUnvalidated {
    FutureAsset {
        asset_name: String,
        contract_addr: String,
        collateralizeable: bool,
        ratio: Decimal,
        underlying: NormalAssetInfoUnvalidated,
        decimals: u128,
    },
    NormalAsset(NormalAssetInfoUnvalidated),
}

#[derive(Clone, Debug, PartialEq, Eq)]
pub enum NormalAssetInfoUnvalidated {
    CW20Token {
        asset_name: String,
        contract_addr: String,
        collateralizeable: bool,
        ratio: Decimal,
        decimals: u128,
    },
    NativeToken { denom: String, collateralizeable: bool, ratio: Decimal, decimals: u128 },
}

impl NormalAssetInfoUnvalidated {
    /// The address that must be validated before registration, if any.
    pub open spec fn address_spec(&self) -> Option<Seq<char>> {
        match self {
            NormalAssetInfoUnvalidated::CW20Token { contract_addr, .. } => Some(contract_addr@),
            NormalAssetInfoUnvalidated::NativeToken { .. } => None,
        }
    }

    pub open spec fn validated_spec(self) -> NormalAssetInfo {
        match self {
            NormalAssetInfoUnvalidated::CW20Token {
                asset_name,
                contract_addr,
                collateralizeable,
                ratio,
                decimals,
            } => NormalAssetInfo::CW20Token {
                asset_name,
                contract_addr,
                collateralizeable,
                ratio,
                decimals,
            },
            NormalAssetInfoUnvalidated::NativeToken { denom, collateralizeable, ratio, decimals } =>
                NormalAssetInfo::NativeToken { denom, collateralizeable, ratio, decimals },
        }
    }

    /// The definition with its address accepted; `address_valid` is the host's
    /// verdict on the contract address, and is not read for a native coin.
    pub fn to_validated(self, address_valid: bool) -> (r: Result<NormalAssetInfo, ContractError>)
        ensures
            self.address_spec().is_some() && !address_valid ==> r == Err::<
                NormalAssetInfo,
                ContractError,
            >(ContractError::InvalidAddress),
            self.address_spec().is_none() || address_valid ==> r == Ok::<
                NormalAssetInfo,
                ContractError,
            >(self.validated_spec()),
    {
        match self {
            NormalAssetInfoUnvalidated::CW20Token {
                asset_name,
                contract_addr,
                ratio,
                collateralizeable,
                decimals,
            } => {
                if !address_valid {
                    return Err(ContractError::InvalidAddress);
                }
                Ok(
                    NormalAssetInfo::CW20Token {
                        asset_name,
                        contract_addr,
                        ratio,
                        collateralizeable,
                        decimals,
                    },
                )
            },
            NormalAssetInfoUnvalidated::NativeToken { denom, ratio, collateralizeable, decimals } => {
                Ok(NormalAssetInfo::NativeToken { denom, ratio, collateralizeable, decimals })
            },
        }
    }
}

impl AssetInfoUnvalidated {
    /// The address that must be validated before registration, if any.
    pub open spec fn address_spec(&self) -> Option<Seq<char>> {
        match self {
            AssetInfoUnvalidated::FutureAsset { contract_addr, .. } => Some(contract_addr@),
            AssetInfoUnvalidated::NormalAsset(n) => n.address_spec(),
        }
    }

    pub open spec fn validated_spec(self) -> AssetInfo {
        match self {
            AssetInfoUnvalidated::FutureAsset {
                asset_name,
                contract_addr,
                collateralizeable,
                ratio,
                underlying,
                decimals,
            } => AssetInfo::FutureAsset {
                asset_name,
                contract_addr,
                collateralizeable,
                ratio,
                underlying,
                decimals,
            },
            AssetInfoUnvalidated::NormalAsset(n) => AssetInfo::NormalAsset(n.validated_spec()),
        }
    }

    /// The address that the host must validate before registration, if any.
    pub fn address_to_validate(&self) -> (r: Option<&String>)
        ensures
            r matches Some(a) ==> self.address_spec() == Some(a@),
            r is None ==> self.address_spec() is None,
    {
        match self {
            AssetInfoUnvalidated::FutureAsset { contract_addr, .. } => Some(contract_addr),
            AssetInfoUnvalidated::NormalAsset(n) => match n {
                NormalAssetInfoUnvalidated::CW20Token { contract_addr, .. } => Some(contract_addr),
                NormalAssetInfoUnvalidated::NativeToken { .. } => None,
            },
        }
    }

    /// The definition with its address accepted; `address_valid` is the host's
    /// verdict on the contract address, and is not read for a native coin.
    pub fn to_validated(self, address_valid: bool) -> (r: Result<AssetInfo, ContractError>)
        ensures
            self.address_spec().is_some() && !address_valid ==> r == Err::<
                AssetInfo,
                ContractError,
            >(ContractError::InvalidAddress),
            self.address_spec().is_none() || address_valid ==> r == Ok::<AssetInfo, ContractError>(
                self.validated_spec(),
            ),
    {
        match self {
            AssetInfoUnvalidated::FutureAsset {
                asset_name,
                contract_addr,
                collateralizeable,
                ratio,
                underlying,
                decimals,
            } => {
                if !address_valid {
                    return Err(ContractError::InvalidAddress);
                }
                Ok(
                    AssetInfo::FutureAsset {
                        asset_name,
                        contract_addr,
                        collateralizeable,
                        ratio,
                        underlying,
                        decimals,
                    },
                )
            },
            AssetInfoUnvalidated::NormalAsset(normal_asset_info) => {
                match normal_asset_info.to_validated(address_valid) {
                    Ok(n) => Ok(AssetInfo::NormalAsset(n)),
                    Err(e) => Err(e),
                }
            },
        }
    }
}

impl AssetInfo {
    pub open spec fn ratio_spec(&self) -> Decimal {
        match self {
            AssetInfo::FutureAsset { ratio, .. } => *ratio,
            AssetInfo::NormalAsset(NormalAssetInfo::NativeToken { ratio, .. }) => *ratio,
            AssetInfo::NormalAsset(NormalAssetInfo::CW20Token { ratio, .. }) => *ratio,
        }
    }

    pub open spec fn name_spec(&self) -> Seq<char> {
        match self {
            AssetInfo::FutureAsset { asset_name, .. } => asset_name@,
            AssetInfo::NormalAsset(NormalAssetInfo::NativeToken { denom, .. }) => denom@,
            AssetInfo::NormalAsset(NormalAssetInfo::CW20Token { asset_name, .. }) => asset_name@,
        }
    }

    pub open spec fn decimals_spec(&self) -> u128 {
        match self {
            AssetInfo::FutureAsset { decimals, .. } => *decimals,
            AssetInfo::NormalAsset(NormalAssetInfo::NativeToken { decimals, .. }) => *decimals,
            AssetInfo::NormalAsset(NormalAssetInfo::CW20Token { decimals, .. }) => *decimals,
        }
    }

    /// The token contract that must send deposits of this asset; `None` for a
    /// native coin.
    pub open spec fn contract_addr_spec(&self) -> Option<Seq<char>> {
        match self {
            AssetInfo::FutureAsset { contract_addr, .. } => Some(contract_addr@),
            AssetInfo::NormalAsset(NormalAssetInfo::CW20Token { contract_addr, .. }) => Some(
                contract_addr@,
            ),
            AssetInfo::NormalAsset(NormalAssetInfo::NativeToken { .. }) => None,
        }
    }

    pub open spec fn is_future(&self) -> bool {
        self is FutureAsset
    }

    /// A borrow-backed asset that may never be held as collateral.
    pub open spec fn is_restricted(&self) -> bool {
        match self {
            AssetInfo::FutureAsset { collateralizeable, .. } => !*collateralizeable,
            _ => false,
        }
    }

    /// The haircut applied to this asset's value when it is held as collateral.
    pub fn get_ratio(&self) -> (r: Decimal)
        ensures
            r == self.ratio_spec(),
    {
        match self {
            AssetInfo::FutureAsset { ratio, .. } => *ratio,
            AssetInfo::NormalAsset(normal_asset_info) => match normal_asset_info {
                NormalAssetInfo::NativeToken { ratio, .. } => *ratio,
                NormalAssetInfo::CW20Token { ratio, .. } => *ratio,
            },
        }
    }

    pub fn get_name(&self) -> (r: String)
        ensures
            r@ == self.name_spec(),
    {
        match self {
            AssetInfo::FutureAsset { asset_name, .. } => asset_name.clone(),
            AssetInfo::NormalAsset(normal_asset_info) => match normal_asset_info {
                NormalAssetInfo::NativeToken { denom, .. } => denom.clone(),
                NormalAssetInfo::CW20Token { asset_name, .. } => asset_name.clone(),
            },
        }
    }

    /// The number of decimal places of the asset's raw integer amounts.
    pub fn get_decimals(&self) -> (r: u128)
        ensures
            r == self.decimals_spec(),
    {
        match self {
            AssetInfo::FutureAsset { decimals, .. } => *decimals,
            AssetInfo::NormalAsset(normal_asset_info) => match normal_asset_info {
                NormalAssetInfo::NativeToken { decimals, .. } => *decimals,
                NormalAssetInfo::CW20Token { decimals, .. } => *decimals,
            },
        }
    }
}

} // verus!
