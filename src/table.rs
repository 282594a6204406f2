//! A balance table: a non-negative amount per (account, asset) pair, where a
//! pair whose amount is zero has no row.

use vstd::prelude::*;
use crate::error::ContractError;

verus! {

/// The key of a row: the account and the asset's name.
pub type PositionKey = (Seq<char>, Seq<char>);

/// A row of a balance table.
#[derive(Debug)]
pub struct Position {
    pub account: String,
    pub asset: String,
    pub amount: u128,
}

pub open spec fn key_of(p: Position) -> PositionKey {
    (p.account@, p.asset@)
}

/// The amount held under `k`: zero where there is no row.
pub open spec fn amount_in(m: Map<PositionKey, u128>, k: PositionKey) -> u128 {
    if m.contains_key(k) {
        m[k]
    } else {
        0
    }
}

/// `m` with the amount under `k` set to `v`; a zero amount removes the row.
pub open spec fn set_amount(m: Map<PositionKey, u128>, k: PositionKey, v: u128) -> Map<
    PositionKey,
    u128,
> {
    if v == 0 {
        m.remove(k)
    } else {
        m.insert(k, v)
    }
}

/// Every amount in the table is positive.
pub open spec fn all_positive(m: Map<PositionKey, u128>) -> bool {
    forall|k: PositionKey| #[trigger] m.contains_key(k) ==> m[k] > 0
}

pub struct BalanceTable {
    entries: Vec<Position>,
    contents: Ghost<Map<PositionKey, u128>>,
}

impl View for BalanceTable {
    type V = Map<PositionKey, u128>;

    closed spec fn view(&self) -> Map<PositionKey, u128> {
        self.contents@
    }
}

impl BalanceTable {
    /// The rows, in the order in which they are enumerated.
    pub closed spec fn rows(&self) -> Seq<Position> {
        self.entries@
    }

    pub closed spec fn wf(&self) -> bool {
        &&& forall|i: int, j: int|
            0 <= i < j < self.entries@.len() ==> key_of(#[trigger] self.entries@[i]) != key_of(
                #[trigger] self.entries@[j],
            )
        &&& forall|i: int|
            0 <= i < self.entries@.len() ==> {
                &&& (#[trigger] self.entries@[i]).amount > 0
                &&& self.contents@.contains_key(key_of(self.entries@[i]))
                &&& self.contents@[key_of(self.entries@[i])] == self.entries@[i].amount
            }
        &&& forall|k: PositionKey| #[trigger]
            self.contents@.contains_key(k) ==> exists|i: int|
                0 <= i < self.entries@.len() && key_of(#[trigger] self.entries@[i]) == k
    }

    /// What a well-formed table's rows say of its contents.
    pub proof fn lemma_rows(&self)
        requires
            self.wf(),
        ensures
            all_positive(self@),
            forall|i: int|
                0 <= i < self.rows().len() ==> #[trigger] self@.contains_key(key_of(self.rows()[i])),
            forall|i: int|
                0 <= i < self.rows().len() ==> #[trigger] amount_in(self@, key_of(self.rows()[i]))
                    == self.rows()[i].amount,
            forall|i: int, j: int|
                0 <= i < j < self.rows().len() ==> key_of(#[trigger] self.rows()[i]) != key_of(
                    #[trigger] self.rows()[j],
                ),
            forall|k: PositionKey|
                #[trigger] self@.contains_key(k) ==> exists|i: int|
                    0 <= i < self.rows().len() && key_of(#[trigger] self.rows()[i]) == k,
    {
        assert forall|k: PositionKey| #[trigger] self@.contains_key(k) implies self@[k] > 0 by {
            let i = choose|i: int| 0 <= i < self.entries@.len() && key_of(#[trigger] self.entries@[i]) == k;
            assert(self.entries@[i].amount > 0);
        }
        assert forall|k: PositionKey| #[trigger] self@.contains_key(k) implies exists|i: int|
            0 <= i < self.rows().len() && key_of(#[trigger] self.rows()[i]) == k by {
            let i = choose|i: int| 0 <= i < self.entries@.len() && key_of(#[trigger] self.entries@[i]) == k;
            assert(key_of(self.rows()[i]) == k);
        }
    }

    pub fn new() -> (r: BalanceTable)
        ensures
            r.wf(),
            r@ == Map::<PositionKey, u128>::empty(),
            r.rows().len() == 0,
    {
        BalanceTable { entries: Vec::new(), contents: Ghost(Map::empty()) }
    }

    /// A copy of the table.
    pub fn duplicate(&self) -> (r: BalanceTable)
        requires
            self.wf(),
        ensures
            r.wf(),
            r@ == self@,
            r.rows() == self.rows(),
    {
        let mut entries: Vec<Position> = Vec::new();
        let mut i: usize = 0;
        while i < self.entries.len()
            invariant
                i <= self.entries@.len(),
                entries@ == self.entries@.subrange(0, i as int),
            decreases self.entries@.len() - i,
        {
            let p = &self.entries[i];
            entries.push(Position { account: p.account.clone(), asset: p.asset.clone(), amount: p.amount });
            i = i + 1;
        }
        assert(entries@ =~= self.entries@);
        let r = BalanceTable { entries, contents: Ghost(self.contents@) };
        assert(r.entries@ == self.entries@);
        r
    }

    /// The number of rows.
    pub fn len(&self) -> (r: usize)
        ensures
            r == self.rows().len(),
    {
        self.entries.len()
    }

    /// The row at index `i`.
    pub fn row(&self, i: usize) -> (r: &Position)
        requires
            i < self.rows().len(),
        ensures
            *r == self.rows()[i as int],
    {
        &self.entries[i]
    }

    fn find(&self, account: &String, asset: &String) -> (r: Option<usize>)
        requires
            self.wf(),
        ensures
            r matches Some(i) ==> i < self.entries@.len() && key_of(self.entries@[i as int]) == (
                account@,
                asset@,
            ),
            r is None ==> !self@.contains_key((account@, asset@)),
    {
        let mut i: usize = 0;
        while i < self.entries.len()
            invariant
                self.wf(),
                i <= self.entries@.len(),
                forall|j: int| 0 <= j < i ==> key_of(#[trigger] self.entries@[j]) != (account@, asset@),
            decreases self.entries@.len() - i,
        {
            let p = &self.entries[i];
            if p.account == *account && p.asset == *asset {
                return Some(i);
            }
            i = i + 1;
        }
        None
    }

    /// The amount held by `account` of `asset`: zero where there is no row.
    pub fn get(&self, account: &String, asset: &String) -> (r: u128)
        requires
            self.wf(),
        ensures
            r == amount_in(self@, (account@, asset@)),
    {
        match self.find(account, asset) {
            Some(i) => self.entries[i].amount,
            None => 0,
        }
    }

    /// Sets the amount held by `account` of `asset` to `v`.
    pub fn set(&mut self, account: &String, asset: &String, v: u128)
        requires
            old(self).wf(),
        ensures
            final(self).wf(),
            final(self)@ == set_amount(old(self)@, (account@, asset@), v),
    {
        let ghost k = (account@, asset@);
        match self.find(account, asset) {
            Some(i) => {
                if v == 0 {
                    let ghost old_entries = self.entries@;
                    self.entries.remove(i);
                    self.contents = Ghost(self.contents@.remove(k));
                    assert forall|j: int| 0 <= j < self.entries@.len() implies key_of(
                        #[trigger] self.entries@[j],
                    ) != k by {
                        if j < i {
                            assert(old_entries[j] == self.entries@[j]);
                        } else {
                            assert(old_entries[j + 1] == self.entries@[j]);
                        }
                    }
                    assert forall|kk: PositionKey| #[trigger]
                        self.contents@.contains_key(kk) implies exists|j: int|
                        0 <= j < self.entries@.len() && key_of(#[trigger] self.entries@[j]) == kk by {
                        let j0 = choose|j: int|
                            0 <= j < old_entries.len() && key_of(#[trigger] old_entries[j]) == kk;
                        if j0 < i {
                            assert(key_of(self.entries@[j0]) == kk);
                        } else {
                            assert(key_of(self.entries@[j0 - 1]) == kk);
                        }
                    }
                    assert forall|a: int, b: int|
                        0 <= a < b < self.entries@.len() implies key_of(
                        #[trigger] self.entries@[a],
                    ) != key_of(#[trigger] self.entries@[b]) by {
                        let oa = if a < i { a } else { a + 1 };
                        let ob = if b < i { b } else { b + 1 };
                        assert(self.entries@[a] == old_entries[oa]);
                        assert(self.entries@[b] == old_entries[ob]);
                    }
                    assert forall|j: int| 0 <= j < self.entries@.len() implies {
                        &&& (#[trigger] self.entries@[j]).amount > 0
                        &&& self.contents@.contains_key(key_of(self.entries@[j]))
                        &&& self.contents@[key_of(self.entries@[j])] == self.entries@[j].amount
                    } by {
                        let oj = if j < i { j } else { j + 1 };
                        assert(self.entries@[j] == old_entries[oj]);
                    }
                } else {
                    let ghost old_entries = self.entries@;
                    self.entries.set(i, Position { account: account.clone(), asset: asset.clone(), amount: v });
                    self.contents = Ghost(self.contents@.insert(k, v));
                    assert forall|kk: PositionKey| #[trigger]
                        self.contents@.contains_key(kk) implies exists|j: int|
                        0 <= j < self.entries@.len() && key_of(#[trigger] self.entries@[j]) == kk by {
                        if kk == k {
                            assert(key_of(self.entries@[i as int]) == kk);
                        } else {
                            let j0 = choose|j: int|
                                0 <= j < old_entries.len() && key_of(#[trigger] old_entries[j]) == kk;
                            assert(key_of(self.entries@[j0]) == kk);
                        }
                    }
                    assert forall|j: int| 0 <= j < self.entries@.len() implies {
                        &&& (#[trigger] self.entries@[j]).amount > 0
                        &&& self.contents@.contains_key(key_of(self.entries@[j]))
                        &&& self.contents@[key_of(self.entries@[j])] == self.entries@[j].amount
                    } by {
                        if j != i {
                            assert(self.entries@[j] == old_entries[j]);
                            assert(key_of(old_entries[j]) != key_of(old_entries[i as int]));
                        }
                    }
                    assert forall|a: int, b: int|
                        0 <= a < b < self.entries@.len() implies key_of(
                        #[trigger] self.entries@[a],
                    ) != key_of(#[trigger] self.entries@[b]) by {
                        assert(key_of(self.entries@[a]) == key_of(old_entries[a]));
                        assert(key_of(self.entries@[b]) == key_of(old_entries[b]));
                    }
                }
            },
            None => {
                if v != 0 {
                    let ghost old_entries = self.entries@;
                    self.entries.push(Position { account: account.clone(), asset: asset.clone(), amount: v });
                    self.contents = Ghost(self.contents@.insert(k, v));
                    let ghost n = old_entries.len() as int;
                    assert forall|kk: PositionKey| #[trigger]
                        self.contents@.contains_key(kk) implies exists|j: int|
                        0 <= j < self.entries@.len() && key_of(#[trigger] self.entries@[j]) == kk by {
                        if kk == k {
                            assert(key_of(self.entries@[n]) == kk);
                        } else {
                            let j0 = choose|j: int|
                                0 <= j < old_entries.len() && key_of(#[trigger] old_entries[j]) == kk;
                            assert(key_of(self.entries@[j0]) == kk);
                        }
                    }
                    assert forall|j: int| 0 <= j < self.entries@.len() implies {
                        &&& (#[trigger] self.entries@[j]).amount > 0
                        &&& self.contents@.contains_key(key_of(self.entries@[j]))
                        &&& self.contents@[key_of(self.entries@[j])] == self.entries@[j].amount
                    } by {
                        if j < n {
                            assert(self.entries@[j] == old_entries[j]);
                        }
                    }
                    assert forall|a: int, b: int|
                        0 <= a < b < self.entries@.len() implies key_of(
                        #[trigger] self.entries@[a],
                    ) != key_of(#[trigger] self.entries@[b]) by {
                        assert(self.entries@[a] == old_entries[a]);
                        if b < n {
                            assert(self.entries@[b] == old_entries[b]);
                        }
                    }
                } else {
                    assert(self.contents@.remove(k) =~= self.contents@);
                }
            },
        }
    }

    /// Adds `amount` to the balance, failing rather than leaving the 128-bit
    /// range.
    pub fn credit(&mut self, account: &String, asset: &String, amount: u128) -> (r: Result<
        (),
        ContractError,
    >)
        requires
            old(self).wf(),
        ensures
            final(self).wf(),
            r is Ok <==> amount_in(old(self)@, (account@, asset@)) + amount <= u128::MAX,
            r is Ok ==> final(self)@ == set_amount(
                old(self)@,
                (account@, asset@),
                (amount_in(old(self)@, (account@, asset@)) + amount) as u128,
            ),
            r is Err ==> r == Err::<(), ContractError>(ContractError::Overflow) && final(self)@
                == old(self)@,
    {
        let current = self.get(account, asset);
        match current.checked_add(amount) {
            Some(v) => {
                self.set(account, asset, v);
                Ok(())
            },
            None => Err(ContractError::Overflow),
        }
    }

    /// Takes `amount` off the balance, failing where it exceeds the balance.
    pub fn debit(&mut self, account: &String, asset: &String, amount: u128) -> (r: Result<
        (),
        ContractError,
    >)
        requires
            old(self).wf(),
        ensures
            final(self).wf(),
            r is Ok <==> amount <= amount_in(old(self)@, (account@, asset@)),
            r is Ok ==> final(self)@ == set_amount(
                old(self)@,
                (account@, asset@),
                (amount_in(old(self)@, (account@, asset@)) - amount) as u128,
            ),
            r is Err ==> r == Err::<(), ContractError>(ContractError::InsufficientBalance)
                && final(self)@ == old(self)@,
    {
        let current = self.get(account, asset);
        match current.checked_sub(amount) {
            Some(v) => {
                self.set(account, asset, v);
                Ok(())
            },
            None => Err(ContractError::InsufficientBalance),
        }
    }
}

} // verus!
