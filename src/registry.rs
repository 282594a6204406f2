//! The registry of supported assets, keyed by name.

use vstd::prelude::*;
use crate::asset::AssetInfo;

verus! {

pub struct RegistryEntry {
    pub name: String,
    pub info: AssetInfo,
}

pub struct Registry {
    entries: Vec<RegistryEntry>,
    contents: Ghost<Map<Seq<char>, AssetInfo>>,
}

impl View for Registry {
    type V = Map<Seq<char>, AssetInfo>;

    closed spec fn view(&self) -> Map<Seq<char>, AssetInfo> {
        self.contents@
    }
}

impl Registry {
    pub closed spec fn wf(&self) -> bool {
        &&& forall|i: int, j: int|
            0 <= i < j < self.entries@.len() ==> (#[trigger] self.entries@[i]).name@
                != (#[trigger] self.entries@[j]).name@
        &&& forall|i: int|
            0 <= i < self.entries@.len() ==> {
                &&& self.contents@.contains_key((#[trigger] self.entries@[i]).name@)
                &&& self.contents@[self.entries@[i].name@] == self.entries@[i].info
            }
        &&& forall|k: Seq<char>| #[trigger]
            self.contents@.contains_key(k) ==> exists|i: int|
                0 <= i < self.entries@.len() && (#[trigger] self.entries@[i]).name@ == k
    }

    pub fn new() -> (r: Registry)
        ensures
            r.wf(),
            r@ == Map::<Seq<char>, AssetInfo>::empty(),
    {
        Registry { entries: Vec::new(), contents: Ghost(Map::empty()) }
    }

    fn find(&self, name: &String) -> (r: Option<usize>)
        requires
            self.wf(),
        ensures
            r matches Some(i) ==> i < self.entries@.len() && self.entries@[i as int].name@ == name@,
            r is None ==> !self@.contains_key(name@),
    {
        let mut i: usize = 0;
        while i < self.entries.len()
            invariant
                self.wf(),
                i <= self.entries@.len(),
                forall|j: int| 0 <= j < i ==> (#[trigger] self.entries@[j]).name@ != name@,
            decreases self.entries@.len() - i,
        {
            if self.entries[i].name == *name {
                return Some(i);
            }
            i = i + 1;
        }
        None
    }

    /// The definition registered under `name`.
    pub fn get(&self, name: &String) -> (r: Option<&AssetInfo>)
        requires
            self.wf(),
        ensures
            r matches Some(a) ==> self@.contains_key(name@) && *a == self@[name@],
            r is None ==> !self@.contains_key(name@),
    {
        match self.find(name) {
            Some(i) => Some(&self.entries[i].info),
            None => None,
        }
    }

    /// Registers `info` under `name`, which must be free.
    pub fn insert(&mut self, name: String, info: AssetInfo)
        requires
            old(self).wf(),
            !old(self)@.contains_key(name@),
        ensures
            final(self).wf(),
            final(self)@ == old(self)@.insert(name@, info),
    {
        let ghost k = name@;
        let ghost old_entries = self.entries@;
        self.entries.push(RegistryEntry { name, info });
        self.contents = Ghost(self.contents@.insert(k, info));
        let ghost n = old_entries.len() as int;
        assert forall|kk: Seq<char>| #[trigger] self.contents@.contains_key(kk) implies exists|j: int|
            0 <= j < self.entries@.len() && (#[trigger] self.entries@[j]).name@ == kk by {
            if kk == k {
                assert(self.entries@[n].name@ == kk);
            } else {
                let j0 = choose|j: int| 0 <= j < old_entries.len() && (#[trigger] old_entries[j]).name@ == kk;
                assert(self.entries@[j0].name@ == kk);
            }
        }
        assert forall|j: int| 0 <= j < self.entries@.len() implies {
            &&& self.contents@.contains_key((#[trigger] self.entries@[j]).name@)
            &&& self.contents@[self.entries@[j].name@] == self.entries@[j].info
        } by {
            if j < n {
                assert(self.entries@[j] == old_entries[j]);
            }
        }
        assert forall|a: int, b: int| 0 <= a < b < self.entries@.len() implies (
        #[trigger] self.entries@[a]).name@ != (#[trigger] self.entries@[b]).name@ by {
            assert(self.entries@[a] == old_entries[a]);
            if b < n {
                assert(self.entries@[b] == old_entries[b]);
            }
        }
    }

    /// Removes the definition registered under `name`; returns whether there
    /// was one.
    pub fn remove(&mut self, name: &String) -> (r: bool)
        requires
            old(self).wf(),
        ensures
            final(self).wf(),
            r == old(self)@.contains_key(name@),
            final(self)@ == old(self)@.remove(name@),
    {
        let ghost k = name@;
        match self.find(name) {
            Some(i) => {
                let ghost old_entries = self.entries@;
                self.entries.remove(i);
                self.contents = Ghost(self.contents@.remove(k));
                assert forall|j: int| 0 <= j < self.entries@.len() implies (
                #[trigger] self.entries@[j]).name@ != k by {
                    if j < i {
                        assert(old_entries[j] == self.entries@[j]);
                    } else {
                        assert(old_entries[j + 1] == self.entries@[j]);
                    }
                }
                assert forall|kk: Seq<char>| #[trigger]
                    self.contents@.contains_key(kk) implies exists|j: int|
                    0 <= j < self.entries@.len() && (#[trigger] self.entries@[j]).name@ == kk by {
                    let j0 = choose|j: int| 0 <= j < old_entries.len() && (#[trigger] old_entries[j]).name@ == kk;
                    if j0 < i {
                        assert(self.entries@[j0].name@ == kk);
                    } else {
                        assert(self.entries@[j0 - 1].name@ == kk);
                    }
                }
                assert forall|a: int, b: int| 0 <= a < b < self.entries@.len() implies (
                #[trigger] self.entries@[a]).name@ != (#[trigger] self.entries@[b]).name@ by {
                    let oa = if a < i { a } else { a + 1 };
                    let ob = if b < i { b } else { b + 1 };
                    assert(self.entries@[a] == old_entries[oa]);
                    assert(self.entries@[b] == old_entries[ob]);
                }
                assert forall|j: int| 0 <= j < self.entries@.len() implies {
                    &&& self.contents@.contains_key((#[trigger] self.entries@[j]).name@)
                    &&& self.contents@[self.entries@[j].name@] == self.entries@[j].info
                } by {
                    let oj = if j < i { j } else { j + 1 };
                    assert(self.entries@[j] == old_entries[oj]);
                }
                true
            },
            None => {
                assert(self.contents@.remove(k) =~= self.contents@);
                false
            },
        }
    }
}

} // verus!
