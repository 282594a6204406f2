//! The position ledger: a collateral table and a borrow table, and the rules
//! by which deposits move them.

use vstd::prelude::*;
use crate::error::ContractError;
use crate::table::{BalanceTable, PositionKey, amount_in, set_amount};

verus! {

/// What an account holds of one asset.
#[derive(Clone, Copy, Debug, PartialEq, Eq, Structural)]
pub struct BalanceResponse {
    pub collateral: u128,
    pub borrow: u128,
}

pub struct PositionLedger {
    pub collateral: BalanceTable,
    pub borrow: BalanceTable,
}

/// The larger of `a - b` and zero.
pub open spec fn excess(a: int, b: int) -> int {
    if a >= b {
        a - b
    } else {
        0
    }
}

impl PositionLedger {
    pub open spec fn wf(&self) -> bool {
        self.collateral.wf() && self.borrow.wf()
    }

    pub open spec fn collateral_of(&self, k: PositionKey) -> u128 {
        amount_in(self.collateral@, k)
    }

    pub open spec fn borrow_of(&self, k: PositionKey) -> u128 {
        amount_in(self.borrow@, k)
    }

    pub fn new() -> (r: PositionLedger)
        ensures
            r.wf(),
            r.collateral@ == Map::<PositionKey, u128>::empty(),
            r.borrow@ == Map::<PositionKey, u128>::empty(),
    {
        PositionLedger { collateral: BalanceTable::new(), borrow: BalanceTable::new() }
    }

    /// Both amounts that `account` holds of `asset`.
    pub fn balance(&self, account: &String, asset: &String) -> (r: BalanceResponse)
        requires
            self.wf(),
        ensures
            r.collateral == self.collateral_of((account@, asset@)),
            r.borrow == self.borrow_of((account@, asset@)),
    {
        BalanceResponse {
            collateral: self.collateral.get(account, asset),
            borrow: self.borrow.get(account, asset),
        }
    }

    pub fn credit_collateral(&mut self, account: &String, asset: &String, amount: u128) -> (r:
        Result<(), ContractError>)
        requires
            old(self).wf(),
        ensures
            final(self).wf(),
            final(self).borrow@ == old(self).borrow@,
            r is Ok <==> old(self).collateral_of((account@, asset@)) + amount <= u128::MAX,
            r is Ok ==> final(self).collateral@ == set_amount(
                old(self).collateral@,
                (account@, asset@),
                (old(self).collateral_of((account@, asset@)) + amount) as u128,
            ),
            r is Err ==> r == Err::<(), ContractError>(ContractError::Overflow)
                && final(self).collateral@ == old(self).collateral@,
    {
        self.collateral.credit(account, asset, amount)
    }

    pub fn debit_collateral(&mut self, account: &String, asset: &String, amount: u128) -> (r:
        Result<(), ContractError>)
        requires
            old(self).wf(),
        ensures
            final(self).wf(),
            final(self).borrow@ == old(self).borrow@,
            r is Ok <==> amount <= old(self).collateral_of((account@, asset@)),
            r is Ok ==> final(self).collateral@ == set_amount(
                old(self).collateral@,
                (account@, asset@),
                (old(self).collateral_of((account@, asset@)) - amount) as u128,
            ),
            r is Err ==> r == Err::<(), ContractError>(ContractError::InsufficientBalance)
                && final(self).collateral@ == old(self).collateral@,
    {
        self.collateral.debit(account, asset, amount)
    }

    pub fn credit_borrow(&mut self, account: &String, asset: &String, amount: u128) -> (r: Result<
        (),
        ContractError,
    >)
        requires
            old(self).wf(),
        ensures
            final(self).wf(),
            final(self).collateral@ == old(self).collateral@,
            r is Ok <==> old(self).borrow_of((account@, asset@)) + amount <= u128::MAX,
            r is Ok ==> final(self).borrow@ == set_amount(
                old(self).borrow@,
                (account@, asset@),
                (old(self).borrow_of((account@, asset@)) + amount) as u128,
            ),
            r is Err ==> r == Err::<(), ContractError>(ContractError::Overflow) && final(self).borrow@
                == old(self).borrow@,
    {
        self.borrow.credit(account, asset, amount)
    }

    pub fn debit_borrow(&mut self, account: &String, asset: &String, amount: u128) -> (r: Result<
        (),
        ContractError,
    >)
        requires
            old(self).wf(),
        ensures
            final(self).wf(),
            final(self).collateral@ == old(self).collateral@,
            r is Ok <==> amount <= old(self).borrow_of((account@, asset@)),
            r is Ok ==> final(self).borrow@ == set_amount(
                old(self).borrow@,
                (account@, asset@),
                (old(self).borrow_of((account@, asset@)) - amount) as u128,
            ),
            r is Err ==> r == Err::<(), ContractError>(ContractError::InsufficientBalance)
                && final(self).borrow@ == old(self).borrow@,
    {
        self.borrow.debit(account, asset, amount)
    }

    /// A deposit into a borrow-backed asset that may be held as collateral: it
    /// first repays what is borrowed, and only the excess becomes collateral.
    /// Fails, changing nothing, where the new collateral would leave the 128-bit
    /// range.
    pub fn net_deposit_against_borrow(&mut self, account: &String, asset: &String, amount: u128) -> (r:
        Result<(), ContractError>)
        requires
            old(self).wf(),
        ensures
            final(self).wf(),
            r is Ok <==> old(self).collateral_of((account@, asset@)) + excess(
                amount as int,
                old(self).borrow_of((account@, asset@)) as int,
            ) <= u128::MAX,
            r is Ok ==> final(self).borrow_of((account@, asset@)) == excess(
                old(self).borrow_of((account@, asset@)) as int,
                amount as int,
            ),
            r is Ok ==> final(self).collateral_of((account@, asset@)) == old(self).collateral_of(
                (account@, asset@),
            ) + excess(amount as int, old(self).borrow_of((account@, asset@)) as int),
            r is Ok ==> final(self).borrow@ == set_amount(
                old(self).borrow@,
                (account@, asset@),
                excess(old(self).borrow_of((account@, asset@)) as int, amount as int) as u128,
            ),
            r is Ok ==> final(self).collateral@ == set_amount(
                old(self).collateral@,
                (account@, asset@),
                (old(self).collateral_of((account@, asset@)) + excess(
                    amount as int,
                    old(self).borrow_of((account@, asset@)) as int,
                )) as u128,
            ),
            r is Err ==> r == Err::<(), ContractError>(ContractError::Overflow) && final(self).borrow@
                == old(self).borrow@ && final(self).collateral@ == old(self).collateral@,
    {
        let borrowed = self.borrow.get(account, asset);
        if amount >= borrowed {
            let held = self.collateral.get(account, asset);
            match held.checked_add(amount - borrowed) {
                Some(v) => {
                    self.borrow.set(account, asset, 0);
                    self.collateral.set(account, asset, v);
                    Ok(())
                },
                None => Err(ContractError::Overflow),
            }
        } else {
            self.borrow.set(account, asset, borrowed - amount);
            proof {
                assert(excess(amount as int, borrowed as int) == 0);
                self.collateral.lemma_rows();
                assert(set_amount(
                    self.collateral@,
                    (account@, asset@),
                    self.collateral_of((account@, asset@)),
                ) =~= self.collateral@);
            }
            Ok(())
        }
    }

    /// A deposit into a borrow-backed asset that may not be held as collateral:
    /// it may only repay. Fails where nothing is borrowed, or where the deposit
    /// exceeds what is borrowed; the collateral table never changes.
    pub fn restricted_deposit(&mut self, account: &String, asset: &String, amount: u128) -> (r:
        Result<(), ContractError>)
        requires
            old(self).wf(),
        ensures
            final(self).wf(),
            final(self).collateral@ == old(self).collateral@,
            old(self).borrow_of((account@, asset@)) == 0 ==> r == Err::<(), ContractError>(
                ContractError::AssetNotCollaterlizeable,
            ),
            old(self).borrow_of((account@, asset@)) > 0 && amount > old(self).borrow_of(
                (account@, asset@),
            ) ==> r == Err::<(), ContractError>(ContractError::CannotBecomeCollateral),
            r is Ok <==> 0 < old(self).borrow_of((account@, asset@)) && amount <= old(self).borrow_of(
                (account@, asset@),
            ),
            r is Ok ==> final(self).borrow@ == set_amount(
                old(self).borrow@,
                (account@, asset@),
                (old(self).borrow_of((account@, asset@)) - amount) as u128,
            ),
            r is Err ==> final(self).borrow@ == old(self).borrow@,
    {
        let borrowed = self.borrow.get(account, asset);
        if borrowed == 0 {
            return Err(ContractError::AssetNotCollaterlizeable);
        }
        if amount > borrowed {
            return Err(ContractError::CannotBecomeCollateral);
        }
        self.borrow.set(account, asset, borrowed - amount);
        Ok(())
    }
}

} // verus!
