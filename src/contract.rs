//! The collateral manager: the registry, the ledger and the admin slot, and
//! the operations that callers invoke on them.

use vstd::prelude::*;
use crate::asset::{AssetInfo, AssetInfoUnvalidated, NormalAssetInfo};
use crate::error::ContractError;
use crate::ledger::{BalanceResponse, PositionLedger, excess};
use crate::registry::Registry;
use crate::solvency::{AssetPrice, can_withdraw, can_withdraw_spec};
use crate::table::{PositionKey, amount_in, set_amount};

verus! {

/// An amount of a native coin sent along with a call.
#[derive(Debug)]
pub struct Coin {
    pub denom: String,
    pub amount: u128,
}

/// An instruction to the host to send coins once the call has succeeded.
#[derive(Debug, PartialEq, Eq)]
pub struct BankSend {
    pub to_address: String,
    pub denom: String,
    pub amount: u128,
}

/// A key and value describing what a call did.
#[derive(Debug, PartialEq, Eq)]
pub struct Attribute {
    pub key: String,
    pub value: String,
}

pub struct CollateralManager {
    pub admin: Option<String>,
    pub supported_assets: Registry,
    pub ledger: PositionLedger,
}

/// What registering `info` under `name` does to the registry.
pub open spec fn add_asset_outcome(
    reg: Map<Seq<char>, AssetInfo>,
    authorized: bool,
    name: Seq<char>,
    info: AssetInfoUnvalidated,
    address_valid: bool,
) -> Result<Map<Seq<char>, AssetInfo>, ContractError> {
    if !authorized {
        Err(ContractError::Unauthorized)
    } else if info.address_spec() is Some && !address_valid {
        Err(ContractError::InvalidAddress)
    } else if reg.contains_key(name) {
        Err(ContractError::AssetAlreadySupported)
    } else {
        Ok(reg.insert(name, info.validated_spec()))
    }
}

/// What removing `name` does to the registry.
pub open spec fn remove_asset_outcome(
    reg: Map<Seq<char>, AssetInfo>,
    authorized: bool,
    name: Seq<char>,
) -> Result<Map<Seq<char>, AssetInfo>, ContractError> {
    if !authorized {
        Err(ContractError::Unauthorized)
    } else if !reg.contains_key(name) {
        Err(ContractError::AssetNotSupported)
    } else {
        Ok(reg.remove(name))
    }
}

/// The collateral table after `account` deposits `coins` in order, or the
/// first failure.
pub open spec fn deposit_coins(
    reg: Map<Seq<char>, AssetInfo>,
    collateral: Map<PositionKey, u128>,
    account: Seq<char>,
    coins: Seq<Coin>,
) -> Result<Map<PositionKey, u128>, ContractError>
    decreases coins.len(),
{
    if coins.len() == 0 {
        Ok(collateral)
    } else {
        match deposit_coins(reg, collateral, account, coins.drop_last()) {
            Err(e) => Err(e),
            Ok(m) => {
                let c = coins.last();
                let k = (account, c.denom@);
                if !reg.contains_key(c.denom@) {
                    Err(ContractError::AssetNotSupported)
                } else if amount_in(m, k) + c.amount > u128::MAX {
                    Err(ContractError::Overflow)
                } else {
                    Ok(set_amount(m, k, (amount_in(m, k) + c.amount) as u128))
                }
            },
        }
    }
}

/// Removing an asset that is not registered fails and changes nothing, and an
/// asset that was removed can be registered again under the same name.
pub proof fn lemma_remove_then_add_again(
    reg: Map<Seq<char>, AssetInfo>,
    name: Seq<char>,
    info: AssetInfoUnvalidated,
)
    ensures
        !reg.contains_key(name) ==> remove_asset_outcome(reg, true, name) == Err::<
            Map<Seq<char>, AssetInfo>,
            ContractError,
        >(ContractError::AssetNotSupported),
        remove_asset_outcome(reg, true, name) matches Ok(m) ==> add_asset_outcome(
            m,
            true,
            name,
            info,
            true,
        ) == Ok::<Map<Seq<char>, AssetInfo>, ContractError>(m.insert(name, info.validated_spec())),
{
}

fn action_attributes(action: &str, asset_name: String) -> (r: Vec<Attribute>)
    ensures
        r@.len() == 2,
        r@[0].key@ == "action"@,
        r@[0].value@ == action@,
        r@[1].key@ == "asset_name"@,
        r@[1].value@ == asset_name@,
{
    let mut r: Vec<Attribute> = Vec::new();
    r.push(Attribute { key: "action".to_owned(), value: action.to_owned() });
    r.push(Attribute { key: "asset_name".to_owned(), value: asset_name });
    r
}

impl CollateralManager {
    pub open spec fn wf(&self) -> bool {
        self.supported_assets.wf() && self.ledger.wf()
    }

    pub open spec fn admin_is(&self, who: Seq<char>) -> bool {
        match self.admin {
            Some(a) => a@ == who,
            None => false,
        }
    }

    /// A manager with no assets and no positions, administered by `sender`.
    pub fn instantiate(sender: String) -> (r: CollateralManager)
        ensures
            r.wf(),
            r.admin == Some(sender),
            r.supported_assets@ == Map::<Seq<char>, AssetInfo>::empty(),
            r.ledger.collateral@ == Map::<PositionKey, u128>::empty(),
            r.ledger.borrow@ == Map::<PositionKey, u128>::empty(),
    {
        CollateralManager {
            admin: Some(sender),
            supported_assets: Registry::new(),
            ledger: PositionLedger::new(),
        }
    }

    pub fn is_admin(&self, address: &String) -> (r: bool)
        ensures
            r == self.admin_is(address@),
    {
        match &self.admin {
            Some(a) => *a == *address,
            None => false,
        }
    }

    /// Hands the admin role to `new_admin`; only the admin may.
    pub fn execute_update_admin(&mut self, sender: &String, new_admin: String) -> (r: Result<
        (),
        ContractError,
    >)
        ensures
            old(self).admin_is(sender@) ==> r is Ok && final(self).admin == Some(new_admin)
                && final(self).supported_assets == old(self).supported_assets && final(self).ledger
                == old(self).ledger,
            !old(self).admin_is(sender@) ==> r == Err::<(), ContractError>(
                ContractError::Unauthorized,
            ) && *final(self) == *old(self),
    {
        if !self.is_admin(sender) {
            return Err(ContractError::Unauthorized);
        }
        self.admin = Some(new_admin);
        Ok(())
    }

    /// Registers an asset; only the admin may. `address_valid` is the host's
    /// verdict on the definition's contract address.
    pub fn execute_add_supported_asset(
        &mut self,
        sender: &String,
        asset_name: String,
        asset_info_unvalidated: AssetInfoUnvalidated,
        address_valid: bool,
    ) -> (r: Result<Vec<Attribute>, ContractError>)
        requires
            old(self).wf(),
        ensures
            final(self).wf(),
            match add_asset_outcome(
                old(self).supported_assets@,
                old(self).admin_is(sender@),
                asset_name@,
                asset_info_unvalidated,
                address_valid,
            ) {
                Ok(m) => {
                    &&& r is Ok
                    &&& final(self).supported_assets@ == m
                    &&& final(self).admin == old(self).admin
                    &&& final(self).ledger == old(self).ledger
                },
                Err(e) => r == Err::<Vec<Attribute>, ContractError>(e) && *final(self) == *old(self),
            },
            r matches Ok(attrs) ==> attrs@.len() == 2 && attrs@[0].key@ == "action"@
                && attrs@[0].value@ == "add_supported_asset"@ && attrs@[1].key@ == "asset_name"@
                && attrs@[1].value@ == asset_name@,
    {
        if !self.is_admin(sender) {
            return Err(ContractError::Unauthorized);
        }
        let asset_info = match asset_info_unvalidated.to_validated(address_valid) {
            Ok(a) => a,
            Err(e) => return Err(e),
        };
        if self.supported_assets.get(&asset_name).is_some() {
            return Err(ContractError::AssetAlreadySupported);
        }
        let attr_name = asset_name.clone();
        self.supported_assets.insert(asset_name, asset_info);
        Ok(action_attributes("add_supported_asset", attr_name))
    }

    /// Removes an asset from the registry; only the admin may. Open positions in
    /// it are left as they are.
    pub fn execute_remove_supported_asset(&mut self, sender: &String, asset_name: String) -> (r:
        Result<Vec<Attribute>, ContractError>)
        requires
            old(self).wf(),
        ensures
            final(self).wf(),
            match remove_asset_outcome(
                old(self).supported_assets@,
                old(self).admin_is(sender@),
                asset_name@,
            ) {
                Ok(m) => {
                    &&& r is Ok
                    &&& final(self).supported_assets@ == m
                    &&& final(self).admin == old(self).admin
                    &&& final(self).ledger == old(self).ledger
                },
                Err(e) => r == Err::<Vec<Attribute>, ContractError>(e) && *final(self) == *old(self),
            },
            r matches Ok(attrs) ==> attrs@.len() == 2 && attrs@[0].key@ == "action"@
                && attrs@[0].value@ == "remove_supported_asset"@ && attrs@[1].key@ == "asset_name"@
                && attrs@[1].value@ == asset_name@,
    {
        if !self.is_admin(sender) {
            return Err(ContractError::Unauthorized);
        }
        if self.supported_assets.get(&asset_name).is_none() {
            return Err(ContractError::AssetNotSupported);
        }
        self.supported_assets.remove(&asset_name);
        Ok(action_attributes("remove_supported_asset", asset_name))
    }

    /// Credits each coin sent to `sender`'s collateral; every coin must be a
    /// registered asset. All coins are credited, or none.
    pub fn execute_native_deposit(&mut self, sender: &String, funds: &Vec<Coin>) -> (r: Result<
        (),
        ContractError,
    >)
        requires
            old(self).wf(),
        ensures
            final(self).wf(),
            match deposit_coins(
                old(self).supported_assets@,
                old(self).ledger.collateral@,
                sender@,
                funds@,
            ) {
                Ok(m) => {
                    &&& r is Ok
                    &&& final(self).ledger.collateral@ == m
                    &&& final(self).ledger.borrow == old(self).ledger.borrow
                    &&& final(self).supported_assets == old(self).supported_assets
                    &&& final(self).admin == old(self).admin
                },
                Err(e) => r == Err::<(), ContractError>(e) && *final(self) == *old(self),
            },
    {
        let mut staged = self.ledger.collateral.duplicate();
        let mut i: usize = 0;
        while i < funds.len()
            invariant
                self.wf(),
                *self == *old(self),
                staged.wf(),
                i <= funds@.len(),
                deposit_coins(
                    self.supported_assets@,
                    self.ledger.collateral@,
                    sender@,
                    funds@.subrange(0, i as int),
                ) == Ok::<Map<PositionKey, u128>, ContractError>(staged@),
            decreases funds@.len() - i,
        {
            let coin = &funds[i];
            assert(funds@.subrange(0, i + 1).drop_last() == funds@.subrange(0, i as int));
            if self.supported_assets.get(&coin.denom).is_none() {
                proof {
                    lemma_deposit_stays_err(
                        self.supported_assets@,
                        self.ledger.collateral@,
                        sender@,
                        funds@,
                        i + 1,
                        ContractError::AssetNotSupported,
                    );
                }
                return Err(ContractError::AssetNotSupported);
            }
            match staged.credit(sender, &coin.denom, coin.amount) {
                Ok(()) => {},
                Err(e) => {
                    proof {
                        lemma_deposit_stays_err(
                            self.supported_assets@,
                            self.ledger.collateral@,
                            sender@,
                            funds@,
                            i + 1,
                            ContractError::Overflow,
                        );
                    }
                    return Err(e);
                },
            }
            i = i + 1;
        }
        assert(funds@.subrange(0, funds@.len() as int) == funds@);
        self.ledger.collateral = staged;
        Ok(())
    }

    /// Withdraws `withdraw_amount` of a native coin from `sender`'s collateral,
    /// where the account holds some and enough of it and stays solvent at
    /// `prices`; returns the transfer for the host to make.
    pub fn execute_native_withdraw(
        &mut self,
        sender: &String,
        coin_denom: String,
        withdraw_amount: u128,
        prices: &Vec<AssetPrice>,
    ) -> (r: Result<BankSend, ContractError>)
        requires
            old(self).wf(),
        ensures
            final(self).wf(),
            ({
                let reg = old(self).supported_assets@;
                let k = (sender@, coin_denom@);
                let current = old(self).ledger.collateral_of(k);
                &&& !reg.contains_key(coin_denom@) ==> r == Err::<BankSend, ContractError>(
                    ContractError::AssetNotSupported,
                )
                &&& reg.contains_key(coin_denom@) && current == 0 ==> r == Err::<
                    BankSend,
                    ContractError,
                >(ContractError::AssetIsZero)
                &&& reg.contains_key(coin_denom@) && current > 0 && withdraw_amount > current ==> r
                    == Err::<BankSend, ContractError>(
                    ContractError::NotEnoughAsset {
                        coin_denom,
                        current_amount: current,
                        withdraw_amount,
                    },
                )
                &&& reg.contains_key(coin_denom@) && current > 0 && withdraw_amount <= current ==> match can_withdraw_spec(
                    reg,
                    old(self).ledger.collateral@,
                    old(self).ledger.borrow@,
                    prices@,
                    sender@,
                    reg[coin_denom@],
                    withdraw_amount,
                ) {
                    Err(e) => r == Err::<BankSend, ContractError>(e),
                    Ok(false) => r == Err::<BankSend, ContractError>(
                        ContractError::NotEnoughTotalCollateral,
                    ),
                    Ok(true) => {
                        &&& r == Ok::<BankSend, ContractError>(
                            BankSend { to_address: *sender, denom: coin_denom, amount: withdraw_amount },
                        )
                        &&& final(self).ledger.collateral@ == set_amount(
                            old(self).ledger.collateral@,
                            k,
                            (current - withdraw_amount) as u128,
                        )
                        &&& final(self).ledger.borrow == old(self).ledger.borrow
                        &&& final(self).supported_assets == old(self).supported_assets
                        &&& final(self).admin == old(self).admin
                    },
                }
            }),
            r is Err ==> *final(self) == *old(self),
    {
        let asset_info = match self.supported_assets.get(&coin_denom) {
            Some(a) => a,
            None => return Err(ContractError::AssetNotSupported),
        };
        let current_amount = self.ledger.collateral.get(sender, &coin_denom);
        if current_amount == 0 {
            return Err(ContractError::AssetIsZero);
        }
        if withdraw_amount > current_amount {
            return Err(
                ContractError::NotEnoughAsset { coin_denom, current_amount, withdraw_amount },
            );
        }
        match can_withdraw(
            &self.supported_assets,
            &self.ledger.collateral,
            &self.ledger.borrow,
            prices,
            sender,
            asset_info,
            withdraw_amount,
        ) {
            Err(e) => return Err(e),
            Ok(false) => return Err(ContractError::NotEnoughTotalCollateral),
            Ok(true) => {},
        }
        match self.ledger.collateral.debit(sender, &coin_denom, withdraw_amount) {
            Ok(()) => {},
            Err(e) => return Err(e),
        }
        Ok(BankSend { to_address: sender.clone(), denom: coin_denom, amount: withdraw_amount })
    }

    /// A deposit of `amount` of the asset registered as `asset_name`, sent by
    /// the token contract `cw20_contract_addr` on behalf of `sender`.
    pub fn execute_cw20_deposit(
        &mut self,
        sender: &String,
        cw20_contract_addr: &String,
        amount: u128,
        asset_name: &String,
    ) -> (r: Result<(), ContractError>)
        requires
            old(self).wf(),
        ensures
            final(self).wf(),
            ({
                let reg = old(self).supported_assets@;
                let k = (sender@, asset_name@);
                let info = reg[asset_name@];
                let held = old(self).ledger.collateral_of(k);
                let owed = old(self).ledger.borrow_of(k);
                &&& !reg.contains_key(asset_name@) ==> r == Err::<(), ContractError>(
                    ContractError::AssetNotSupported,
                )
                &&& reg.contains_key(asset_name@) && info.contract_addr_spec() is None ==> r == Err::<
                    (),
                    ContractError,
                >(ContractError::NotContractToken)
                &&& reg.contains_key(asset_name@) && info.contract_addr_spec() is Some
                    && info.contract_addr_spec() != Some(cw20_contract_addr@) ==> r == Err::<(), ContractError>(
                    ContractError::ContractMismatch,
                )
                &&& reg.contains_key(asset_name@) && info.contract_addr_spec() == Some(
                    cw20_contract_addr@,
                ) ==> {
                    // a token: credited in full
                    &&& !info.is_future() ==> {
                        &&& r is Ok <==> held + amount <= u128::MAX
                        &&& r is Ok ==> final(self).ledger.collateral@ == set_amount(
                            old(self).ledger.collateral@,
                            k,
                            (held + amount) as u128,
                        ) && final(self).ledger.borrow@ == old(self).ledger.borrow@
                        &&& r is Err ==> r == Err::<(), ContractError>(ContractError::Overflow)
                    }
                    // a borrow-backed asset that may be collateral: repays first
                    &&& info.is_future() && !info.is_restricted() ==> {
                        &&& r is Ok <==> held + excess(amount as int, owed as int) <= u128::MAX
                        &&& r is Ok ==> final(self).ledger.borrow@ == set_amount(
                            old(self).ledger.borrow@,
                            k,
                            excess(owed as int, amount as int) as u128,
                        ) && final(self).ledger.collateral@ == set_amount(
                            old(self).ledger.collateral@,
                            k,
                            (held + excess(amount as int, owed as int)) as u128,
                        )
                        &&& r is Err ==> r == Err::<(), ContractError>(ContractError::Overflow)
                    }
                    // a borrow-backed asset that may not be collateral: repays only
                    &&& info.is_restricted() ==> {
                        &&& owed == 0 ==> r == Err::<(), ContractError>(
                            ContractError::AssetNotCollaterlizeable,
                        )
                        &&& owed > 0 && amount > owed ==> r == Err::<(), ContractError>(
                            ContractError::CannotBecomeCollateral,
                        )
                        &&& r is Ok <==> 0 < owed && amount <= owed
                        &&& r is Ok ==> final(self).ledger.borrow@ == set_amount(
                            old(self).ledger.borrow@,
                            k,
                            (owed - amount) as u128,
                        )
                    }
                }
                &&& reg.contains_key(asset_name@) && info.is_restricted() ==> final(self).ledger.collateral@ == old(self).ledger.collateral@
            }),
            final(self).supported_assets == old(self).supported_assets,
            final(self).admin == old(self).admin,
            r is Err ==> final(self).ledger.collateral@ == old(self).ledger.collateral@
                && final(self).ledger.borrow@ == old(self).ledger.borrow@,
    {
        let asset_info = match self.supported_assets.get(asset_name) {
            Some(a) => a,
            None => return Err(ContractError::AssetNotSupported),
        };
        match asset_info {
            AssetInfo::NormalAsset(normal_asset_info) => match normal_asset_info {
                NormalAssetInfo::CW20Token { contract_addr, .. } => {
                    if *cw20_contract_addr != *contract_addr {
                        return Err(ContractError::ContractMismatch);
                    }
                    self.ledger.credit_collateral(sender, asset_name, amount)
                },
                NormalAssetInfo::NativeToken { .. } => Err(ContractError::NotContractToken),
            },
            AssetInfo::FutureAsset { contract_addr, collateralizeable, .. } => {
                if *cw20_contract_addr != *contract_addr {
                    return Err(ContractError::ContractMismatch);
                }
                if *collateralizeable {
                    self.ledger.net_deposit_against_borrow(sender, asset_name, amount)
                } else {
                    self.ledger.restricted_deposit(sender, asset_name, amount)
                }
            },
        }
    }

    /// Both amounts that `address` holds of `asset_name`; zero where none.
    pub fn query_balance(&self, address: &String, asset_name: &String) -> (r: BalanceResponse)
        requires
            self.wf(),
        ensures
            r.collateral == self.ledger.collateral_of((address@, asset_name@)),
            r.borrow == self.ledger.borrow_of((address@, asset_name@)),
    {
        self.ledger.balance(address, asset_name)
    }

    /// The definition registered under `asset_name`, if any.
    pub fn query_asset_info(&self, asset_name: &String) -> (r: Option<&AssetInfo>)
        requires
            self.wf(),
        ensures
            r matches Some(a) ==> self.supported_assets@.contains_key(asset_name@) && *a
                == self.supported_assets@[asset_name@],
            r is None ==> !self.supported_assets@.contains_key(asset_name@),
    {
        self.supported_assets.get(asset_name)
    }
}

/// Once the deposit of a prefix of the coins has failed, the deposit of every
/// longer prefix fails the same way.
proof fn lemma_deposit_stays_err(
    reg: Map<Seq<char>, AssetInfo>,
    collateral: Map<PositionKey, u128>,
    account: Seq<char>,
    coins: Seq<Coin>,
    k: int,
    e: ContractError,
)
    requires
        0 <= k <= coins.len(),
        deposit_coins(reg, collateral, account, coins.subrange(0, k)) == Err::<
            Map<PositionKey, u128>,
            ContractError,
        >(e),
    ensures
        deposit_coins(reg, collateral, account, coins) == Err::<Map<PositionKey, u128>, ContractError>(
            e,
        ),
    decreases coins.len() - k,
{
    if k == coins.len() {
        assert(coins.subrange(0, k) == coins);
    } else {
        assert(coins.subrange(0, k + 1).drop_last() == coins.subrange(0, k));
        lemma_deposit_stays_err(reg, collateral, account, coins, k + 1, e);
    }
}

} // verus!
