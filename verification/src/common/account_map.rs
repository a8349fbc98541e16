//! The accounts that a provider has returned so far, by key.
use crate::common::key::AccountKey;
use vstd::prelude::*;

verus! {

/// One account as a provider returned it.
pub struct FetchedAccount {
    /// The key that was asked for.
    pub pubkey: AccountKey,
    /// The account's data.
    pub data: Vec<u8>,
    /// The time of the provider's answer.
    pub response_time: u64,
}

/// A map from account keys to the data fetched for them and the time of the
/// answer. A key occurs at most once; a value that is taken out is no longer
/// found.
pub struct AccountMap {
    entries: Vec<FetchedAccount>,
}

impl View for AccountMap {
    type V = Map<AccountKey, (Seq<u8>, u64)>;

    closed spec fn view(&self) -> Map<AccountKey, (Seq<u8>, u64)> {
        Map::new(
            |key: AccountKey| self.holds(key),
            |key: AccountKey|
                (self.entries@[self.index_of(key)].data@, self.entries@[self.index_of(
                    key,
                )].response_time),
        )
    }
}

impl AccountMap {
    /// Whether some entry has the key.
    closed spec fn holds(&self, key: AccountKey) -> bool {
        exists|i: int| 0 <= i < self.entries@.len() && self.entries@[i].pubkey == key
    }

    /// An index at which the key stands.
    closed spec fn index_of(&self, key: AccountKey) -> int {
        choose|i: int| 0 <= i < self.entries@.len() && self.entries@[i].pubkey == key
    }

    /// Whether no key occurs twice.
    pub closed spec fn wf(&self) -> bool {
        forall|i: int, j: int|
            0 <= i < j < self.entries@.len() ==> self.entries@[i].pubkey != self.entries@[j].pubkey
    }

    /// In a well-formed map the entry at an index is what its key maps to.
    proof fn lemma_entry(&self, i: int)
        requires
            self.wf(),
            0 <= i < self.entries@.len(),
        ensures
            self@.contains_key(self.entries@[i].pubkey),
            self@[self.entries@[i].pubkey] == (
                self.entries@[i].data@,
                self.entries@[i].response_time,
            ),
            self.index_of(self.entries@[i].pubkey) == i,
    {
        let key = self.entries@[i].pubkey;
        let j = self.index_of(key);
        assert(0 <= j < self.entries@.len() && self.entries@[j].pubkey == key);
        if j < i {
            assert(self.entries@[j].pubkey != self.entries@[i].pubkey);
        } else if i < j {
            assert(self.entries@[i].pubkey != self.entries@[j].pubkey);
        }
    }

    /// An empty map.
    pub fn new() -> (map: AccountMap)
        ensures
            map.wf(),
            map@ == Map::<AccountKey, (Seq<u8>, u64)>::empty(),
    {
        let map = AccountMap { entries: Vec::new() };
        assert(map@ =~= Map::<AccountKey, (Seq<u8>, u64)>::empty());
        map
    }

    /// The index of the entry with the key, if there is one.
    fn position(&self, key: &AccountKey) -> (found: Option<usize>)
        ensures
            match found {
                Some(i) => i < self.entries@.len() && self.entries@[i as int].pubkey == *key,
                None => !self.holds(*key),
            },
    {
        let mut i: usize = 0;
        while i < self.entries.len()
            invariant
                i <= self.entries@.len(),
                forall|j: int| 0 <= j < i ==> self.entries@[j].pubkey != *key,
            decreases self.entries@.len() - i,
        {
            if self.entries[i].pubkey.same(key) {
                return Some(i);
            }
            i += 1;
        }
        None
    }

    /// Whether the map holds a value for the key.
    pub fn contains_key(&self, key: &AccountKey) -> (found: bool)
        ensures
            found == self@.contains_key(*key),
    {
        self.position(key).is_some()
    }

    /// Maps the key to the data and time given, in place of what it mapped to
    /// before.
    pub fn insert(&mut self, pubkey: AccountKey, data: Vec<u8>, response_time: u64)
        requires
            old(self).wf(),
        ensures
            final(self).wf(),
            final(self)@ == old(self)@.insert(pubkey, (data@, response_time)),
    {
        let ghost before = *self;
        let ghost value = (data@, response_time);
        let entry = FetchedAccount { pubkey, data, response_time };
        match self.position(&pubkey) {
            Some(i) => {
                self.entries.set(i, entry);
                proof {
                    assert(self.wf());
                    assert forall|k: AccountKey| self.holds(k) == before.holds(k) || k
                        == pubkey by {
                        if self.holds(k) {
                            let j = self.index_of(k);
                            assert(before.entries@[j].pubkey == k);
                        }
                        if before.holds(k) {
                            let j = before.index_of(k);
                            assert(self.entries@[j].pubkey == k);
                        }
                    }
                    assert(self.entries@[i as int].pubkey == pubkey);
                    assert forall|k: AccountKey| self@.contains_key(k) implies self@[k]
                        == before@.insert(pubkey, value)[k] by {
                        let j = self.index_of(k);
                        self.lemma_entry(j);
                        if k != pubkey {
                            assert(j != i);
                            before.lemma_entry(j);
                        } else {
                            self.lemma_entry(i as int);
                        }
                    }
                    assert(self@ =~= before@.insert(pubkey, value));
                }
            },
            None => {
                self.entries.push(entry);
                proof {
                    let last = before.entries@.len() as int;
                    assert(self.wf()) by {
                        assert forall|a: int, b: int|
                            0 <= a < b < self.entries@.len() implies self.entries@[a].pubkey
                            != self.entries@[b].pubkey by {
                            if b == last {
                                assert(before.entries@[a].pubkey != pubkey);
                            }
                        }
                    }
                    assert(self.entries@[last].pubkey == pubkey);
                    assert forall|k: AccountKey| self.holds(k) == (before.holds(k) || k
                        == pubkey) by {
                        if self.holds(k) {
                            let j = self.index_of(k);
                            if j < last {
                                assert(before.entries@[j].pubkey == k);
                            }
                        }
                        if before.holds(k) {
                            let j = before.index_of(k);
                            assert(self.entries@[j].pubkey == k);
                        }
                    }
                    assert forall|k: AccountKey| self@.contains_key(k) implies self@[k]
                        == before@.insert(pubkey, value)[k] by {
                        let j = self.index_of(k);
                        self.lemma_entry(j);
                        if k != pubkey {
                            assert(j != last);
                            before.lemma_entry(j);
                        } else {
                            self.lemma_entry(last);
                        }
                    }
                    assert(self@ =~= before@.insert(pubkey, value));
                }
            },
        }
    }

    /// Takes the value of the key out of the map: the data and time are moved
    /// to the caller, and the key is no longer found.
    pub fn remove(&mut self, pubkey: &AccountKey) -> (taken: Option<(Vec<u8>, u64)>)
        requires
            old(self).wf(),
        ensures
            final(self).wf(),
            final(self)@ == old(self)@.remove(*pubkey),
            match taken {
                Some((data, response_time)) => old(self)@.contains_key(*pubkey) && old(
                    self,
                )@[*pubkey] == (data@, response_time),
                None => !old(self)@.contains_key(*pubkey),
            },
    {
        let ghost before = *self;
        match self.position(pubkey) {
            Some(i) => {
                let entry = self.entries.remove(i);
                proof {
                    before.lemma_entry(i as int);
                    assert(self.wf()) by {
                        assert forall|a: int, b: int|
                            0 <= a < b < self.entries@.len() implies self.entries@[a].pubkey
                            != self.entries@[b].pubkey by {
                            let a0 = if a < i { a } else { a + 1 };
                            let b0 = if b < i { b } else { b + 1 };
                            assert(before.entries@[a0].pubkey != before.entries@[b0].pubkey);
                        }
                    }
                    assert forall|k: AccountKey| self.holds(k) == (before.holds(k) && k
                        != *pubkey) by {
                        if self.holds(k) {
                            let j = self.index_of(k);
                            let j0 = if j < i { j } else { j + 1 };
                            assert(before.entries@[j0].pubkey == k);
                            if k == *pubkey {
                                before.lemma_entry(j0);
                            }
                        }
                        if before.holds(k) && k != *pubkey {
                            let j0 = before.index_of(k);
                            let j = if j0 < i { j0 } else { j0 - 1 };
                            assert(self.entries@[j].pubkey == k);
                        }
                    }
                    assert forall|k: AccountKey| self@.contains_key(k) implies self@[k]
                        == before@[k] by {
                        let j = self.index_of(k);
                        self.lemma_entry(j);
                        let j0 = if j < i { j } else { j + 1 };
                        before.lemma_entry(j0);
                    }
                    assert(self@ =~= before@.remove(*pubkey));
                }
                Some((entry.data, entry.response_time))
            },
            None => {
                assert(self@ =~= before@.remove(*pubkey));
                None
            },
        }
    }
}

} // verus!
