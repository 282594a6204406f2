//! The oracle manager: the price sources registered for each asset, and the
//! messages it answers.

use vstd::prelude::*;
use crate::decimal::Decimal;
use crate::error::ContractError;
use crate::oracle::{Oracle, OracleUnvalidated, combined_spec, readings_spec, query_get_price};

verus! {

#[derive(Clone, Copy, Debug, PartialEq, Eq, Structural)]
pub struct InstantiateMsg {}

#[derive(Clone, Debug, PartialEq, Eq)]
pub enum ExecuteMsg {
    AddAssetPriceOracle { asset_name: String, oracle_unvalidated: OracleUnvalidated },
    UpdateAdmin { new_admin: String },
}

#[derive(Clone, Debug, PartialEq, Eq)]
pub enum QueryMsg {
    /// The price of `asset_name` in the stable asset.
    GetPrice { asset_name: String },
}

pub struct OracleEntry {
    pub asset_name: String,
    pub oracles: Vec<Oracle>,
}

/// The price sources of each asset.
pub struct OracleTable {
    entries: Vec<OracleEntry>,
    contents: Ghost<Map<Seq<char>, Seq<Oracle>>>,
}

pub struct OracleManager {
    pub admin: Option<String>,
    pub sources: OracleTable,
}

impl View for OracleTable {
    type V = Map<Seq<char>, Seq<Oracle>>;

    /// The sources registered for each asset, in the order of registration.
    closed spec fn view(&self) -> Map<Seq<char>, Seq<Oracle>> {
        self.contents@
    }
}

/// The sources registered for `name`: none where the asset has no entry.
pub open spec fn sources_in(m: Map<Seq<char>, Seq<Oracle>>, name: Seq<char>) -> Seq<Oracle> {
    if m.contains_key(name) {
        m[name]
    } else {
        Seq::empty()
    }
}

impl OracleTable {
    pub closed spec fn wf(&self) -> bool {
        &&& forall|i: int, j: int|
            0 <= i < j < self.entries@.len() ==> (#[trigger] self.entries@[i]).asset_name@
                != (#[trigger] self.entries@[j]).asset_name@
        &&& forall|i: int|
            0 <= i < self.entries@.len() ==> {
                &&& self.contents@.contains_key((#[trigger] self.entries@[i]).asset_name@)
                &&& self.contents@[self.entries@[i].asset_name@] == self.entries@[i].oracles@
            }
        &&& forall|k: Seq<char>| #[trigger]
            self.contents@.contains_key(k) ==> exists|i: int|
                0 <= i < self.entries@.len() && (#[trigger] self.entries@[i]).asset_name@ == k
    }

    pub fn new() -> (r: OracleTable)
        ensures
            r.wf(),
            r@ == Map::<Seq<char>, Seq<Oracle>>::empty(),
    {
        OracleTable { entries: Vec::new(), contents: Ghost(Map::empty()) }
    }

    fn find(&self, name: &String) -> (r: Option<usize>)
        requires
            self.wf(),
        ensures
            r matches Some(i) ==> i < self.entries@.len() && self.entries@[i as int].asset_name@
                == name@,
            r is None ==> !self@.contains_key(name@),
    {
        let mut i: usize = 0;
        while i < self.entries.len()
            invariant
                self.wf(),
                i <= self.entries@.len(),
                forall|j: int| 0 <= j < i ==> (#[trigger] self.entries@[j]).asset_name@ != name@,
            decreases self.entries@.len() - i,
        {
            if self.entries[i].asset_name == *name {
                return Some(i);
            }
            i = i + 1;
        }
        None
    }

    /// The sources registered for `asset_name`, if any.
    pub fn oracles_of(&self, asset_name: &String) -> (r: Option<&Vec<Oracle>>)
        requires
            self.wf(),
        ensures
            r matches Some(l) ==> self@.contains_key(asset_name@) && l@ == self@[asset_name@],
            r is None ==> !self@.contains_key(asset_name@),
    {
        match self.find(asset_name) {
            Some(i) => Some(&self.entries[i].oracles),
            None => None,
        }
    }

    /// Adds `oracle` after the sources already registered for `asset_name`.
    pub fn append(&mut self, asset_name: String, oracle: Oracle)
        requires
            old(self).wf(),
        ensures
            final(self).wf(),
            final(self)@ == old(self)@.insert(
                asset_name@,
                sources_in(old(self)@, asset_name@).push(oracle),
            ),
    {
        let ghost k = asset_name@;
        let ghost old_entries = self.entries@;
        let ghost n = old_entries.len() as int;
        match self.find(&asset_name) {
            Some(i) => {
                let mut e = self.entries.remove(i);
                e.oracles.push(oracle);
                let ghost list = e.oracles@;
                self.entries.insert(i, e);
                self.contents = Ghost(self.contents@.insert(k, list));
                assert forall|j: int| 0 <= j < n && j != i implies self.entries@[j] == old_entries[j] by {}
                assert(self.entries@.len() == n);
                assert forall|kk: Seq<char>| #[trigger] self.contents@.contains_key(kk) implies exists|j: int|
                    0 <= j < self.entries@.len() && (#[trigger] self.entries@[j]).asset_name@ == kk by {
                    if kk == k {
                        assert(self.entries@[i as int].asset_name@ == kk);
                    } else {
                        let j0 = choose|j: int|
                            0 <= j < old_entries.len() && (#[trigger] old_entries[j]).asset_name@ == kk;
                        assert(self.entries@[j0].asset_name@ == kk);
                    }
                }
                assert forall|j: int| 0 <= j < self.entries@.len() implies {
                    &&& self.contents@.contains_key((#[trigger] self.entries@[j]).asset_name@)
                    &&& self.contents@[self.entries@[j].asset_name@] == self.entries@[j].oracles@
                } by {
                    if j != i {
                        assert(old_entries[j].asset_name@ != old_entries[i as int].asset_name@);
                    }
                }
                assert forall|a: int, b: int| 0 <= a < b < self.entries@.len() implies (
                #[trigger] self.entries@[a]).asset_name@ != (#[trigger] self.entries@[b]).asset_name@ by {
                    assert(self.entries@[a].asset_name@ == old_entries[a].asset_name@);
                    assert(self.entries@[b].asset_name@ == old_entries[b].asset_name@);
                }
            },
            None => {
                let mut oracles: Vec<Oracle> = Vec::new();
                oracles.push(oracle);
                let ghost list = oracles@;
                self.entries.push(OracleEntry { asset_name, oracles });
                self.contents = Ghost(self.contents@.insert(k, list));
                assert(list == Seq::<Oracle>::empty().push(oracle));
                assert forall|kk: Seq<char>| #[trigger] self.contents@.contains_key(kk) implies exists|j: int|
                    0 <= j < self.entries@.len() && (#[trigger] self.entries@[j]).asset_name@ == kk by {
                    if kk == k {
                        assert(self.entries@[n].asset_name@ == kk);
                    } else {
                        let j0 = choose|j: int|
                            0 <= j < old_entries.len() && (#[trigger] old_entries[j]).asset_name@ == kk;
                        assert(self.entries@[j0].asset_name@ == kk);
                    }
                }
                assert forall|j: int| 0 <= j < self.entries@.len() implies {
                    &&& self.contents@.contains_key((#[trigger] self.entries@[j]).asset_name@)
                    &&& self.contents@[self.entries@[j].asset_name@] == self.entries@[j].oracles@
                } by {
                    if j < n {
                        assert(self.entries@[j] == old_entries[j]);
                    }
                }
                assert forall|a: int, b: int| 0 <= a < b < self.entries@.len() implies (
                #[trigger] self.entries@[a]).asset_name@ != (#[trigger] self.entries@[b]).asset_name@ by {
                    assert(self.entries@[a] == old_entries[a]);
                    if b < n {
                        assert(self.entries@[b] == old_entries[b]);
                    }
                }
            },
        }
    }

}

impl OracleManager {
    pub open spec fn wf(&self) -> bool {
        self.sources.wf()
    }

    pub open spec fn admin_is(&self, who: Seq<char>) -> bool {
        match self.admin {
            Some(a) => a@ == who,
            None => false,
        }
    }

    /// A manager with no sources, administered by `sender`.
    pub fn instantiate(sender: String) -> (r: OracleManager)
        ensures
            r.wf(),
            r.admin == Some(sender),
            r.sources@ == Map::<Seq<char>, Seq<Oracle>>::empty(),
    {
        OracleManager { admin: Some(sender), sources: OracleTable::new() }
    }

    pub fn is_admin(&self, address: &String) -> (r: bool)
        ensures
            r == self.admin_is(address@),
    {
        match &self.admin {
            Some(a) => *a == *address,
            None => false,
        }
    }

    /// Hands the admin role to `new_admin`; only the admin may.
    pub fn execute_update_admin(&mut self, sender: &String, new_admin: String) -> (r: Result<
        (),
        ContractError,
    >)
        requires
            old(self).wf(),
        ensures
            final(self).wf(),
            final(self).sources == old(self).sources,
            old(self).admin_is(sender@) ==> r is Ok && final(self).admin == Some(new_admin),
            !old(self).admin_is(sender@) ==> r == Err::<(), ContractError>(
                ContractError::Unauthorized,
            ) && *final(self) == *old(self),
    {
        if !self.is_admin(sender) {
            return Err(ContractError::Unauthorized);
        }
        self.admin = Some(new_admin);
        Ok(())
    }

    /// Registers one more price source for `asset_name`; only the admin may.
    /// `address_valid` is the host's verdict on the source's address.
    pub fn execute_add_asset_price_oracle(
        &mut self,
        sender: &String,
        asset_name: String,
        oracle_unvalidated: OracleUnvalidated,
        address_valid: bool,
    ) -> (r: Result<(), ContractError>)
        requires
            old(self).wf(),
        ensures
            final(self).wf(),
            final(self).admin == old(self).admin,
            !old(self).admin_is(sender@) ==> r == Err::<(), ContractError>(
                ContractError::Unauthorized,
            ),
            old(self).admin_is(sender@) && oracle_unvalidated.address_spec() is Some && !address_valid
                ==> r == Err::<(), ContractError>(ContractError::InvalidAddress),
            r is Ok <==> old(self).admin_is(sender@) && (oracle_unvalidated.address_spec() is None
                || address_valid),
            r is Ok ==> final(self).sources@ == old(self).sources@.insert(
                asset_name@,
                sources_in(old(self).sources@, asset_name@).push(oracle_unvalidated.validated_spec()),
            ),
            r is Err ==> *final(self) == *old(self),
    {
        if !self.is_admin(sender) {
            return Err(ContractError::Unauthorized);
        }
        let new_oracle = match oracle_unvalidated.to_validated(address_valid) {
            Ok(o) => o,
            Err(e) => return Err(e),
        };
        self.sources.append(asset_name, new_oracle);
        Ok(())
    }

    /// The price of `asset_name`: the median of what its sources report, where
    /// `live_rates[i]` is what the host's exchange-rate query gave for source
    /// `i` (see `oracle::query_get_price`).
    pub fn query_get_price(&self, asset_name: &String, live_rates: &Vec<Option<Decimal>>) -> (r:
        Result<Decimal, ContractError>)
        requires
            self.wf(),
        ensures
            !self.sources@.contains_key(asset_name@) ==> r == Err::<Decimal, ContractError>(
                ContractError::OracleNotFound,
            ),
            self.sources@.contains_key(asset_name@) ==> r == combined_spec(
                readings_spec(self.sources@[asset_name@], live_rates@),
            ),
    {
        match self.sources.oracles_of(asset_name) {
            Some(list) => query_get_price(list, live_rates),
            None => Err(ContractError::OracleNotFound),
        }
    }
}

} // verus!
