//! The mint authority: the contract allowed to mint a token, which it does on
//! request of the collateral manager.

use vstd::prelude::*;
use crate::error::ContractError;

verus! {

/// What the mint authority knows of the token it mints.
#[derive(Clone, Debug, PartialEq, Eq)]
pub struct MintAuthorityInfo {
    /// The token's name.
    pub name: String,
    /// The token's symbol.
    pub symbol: String,
    /// The token's number of decimal places.
    pub decimals: u8,
    /// The token contract.
    pub address_cw20: String,
    /// The collateral manager that requests mints.
    pub address_collateral_manager: String,
    /// How much has been minted so far.
    pub total_mint: u128,
}

/// An instruction to the token contract to mint `amount` to `recipient`.
#[derive(Clone, Debug, PartialEq, Eq)]
pub struct MintInstruction {
    pub contract_addr: String,
    pub recipient: String,
    pub amount: u128,
}

/// The mint that a request for `amount` to `recipient` gives rise to;
/// `recipient_valid` is the host's verdict on the recipient's address.
pub fn execute_mint_and_send(
    info: &MintAuthorityInfo,
    recipient: String,
    amount: u128,
    recipient_valid: bool,
) -> (r: Result<MintInstruction, ContractError>)
    ensures
        amount == 0 ==> r == Err::<MintInstruction, ContractError>(ContractError::InvalidZeroAmount),
        amount != 0 && !recipient_valid ==> r == Err::<MintInstruction, ContractError>(
            ContractError::InvalidAddress,
        ),
        amount != 0 && recipient_valid ==> r == Ok::<MintInstruction, ContractError>(
            MintInstruction { contract_addr: info.address_cw20, recipient, amount },
        ),
{
    if amount == 0 {
        return Err(ContractError::InvalidZeroAmount);
    }
    if !recipient_valid {
        return Err(ContractError::InvalidAddress);
    }
    Ok(MintInstruction { contract_addr: info.address_cw20.clone(), recipient, amount })
}

} // verus!
