use vstd::prelude::*;
use crate::account::AccountId;

verus! {

/// A map from accounts to values, one entry for each account. The entries
/// are kept in the order in which their accounts first came.
pub struct AccountMap<V> {
    prefix: Vec<u8>,
    keys: Vec<AccountId>,
    values: Vec<V>,
}

impl<V> View for AccountMap<V> {
    type V = Map<Seq<char>, V>;

    /// The value of each account that has an entry.
    open spec fn view(&self) -> Map<Seq<char>, V> {
        Map::new(
            |name: Seq<char>| self.keys().contains(name),
            |name: Seq<char>| self.values()[self.keys().index_of(name)],
        )
    }
}

impl<V> AccountMap<V> {
    /// The accounts that have an entry, in the order of the entries.
    pub closed spec fn keys(&self) -> Seq<Seq<char>> {
        Seq::new(self.keys@.len(), |i: int| self.keys@[i]@)
    }

    /// The values of the entries, in the order of the entries.
    pub closed spec fn values(&self) -> Seq<V> {
        self.values@
    }

    /// The storage key that this map was made with.
    pub closed spec fn prefix(&self) -> Seq<u8> {
        self.prefix@
    }

    /// Every entry has one account and one value, and no account has two
    /// entries.
    pub open spec fn wf(&self) -> bool {
        &&& self.keys().len() == self.values().len()
        &&& self.keys().no_duplicates()
    }

    /// In a well-formed map the entry of an account is found at the place
    /// of the account, and the map has as many accounts as entries.
    pub proof fn lemma_entries(&self)
        requires
            self.wf(),
        ensures
            self@.dom().finite(),
            self@.dom().len() == self.keys().len(),
            forall|i: int|
                0 <= i < self.keys().len() ==> self@.contains_key(#[trigger] self.keys()[i])
                    && self@[self.keys()[i]] == self.values()[i],
            forall|name: Seq<char>| #[trigger]
                self@.contains_key(name) ==> 0 <= self.keys().index_of(name) < self.keys().len()
                    && self.keys()[self.keys().index_of(name)] == name,
    {
        let keys = self.keys();
        assert(self@.dom() =~= keys.to_set());
        vstd::seq_lib::seq_to_set_is_finite(keys);
        keys.unique_seq_to_set();
        assert forall|i: int| 0 <= i < keys.len() implies self@.contains_key(#[trigger] keys[i])
            && self@[keys[i]] == self.values()[i] by {
            assert(keys.contains(keys[i]));
            assert(keys[keys.index_of(keys[i])] == keys[i]);
        }
    }

    /// Changing the value at one place changes the map at the account of
    /// that place and nowhere else.
    pub proof fn lemma_value_changed(&self, before: &Self, place: int)
        requires
            before.wf(),
            0 <= place < before.keys().len(),
            self.keys() == before.keys(),
            self.values() == before.values().update(place, self.values()[place]),
        ensures
            self.wf(),
            self@ == before@.insert(before.keys()[place], self.values()[place]),
    {
        before.lemma_entries();
        self.lemma_entries();
        let keys = before.keys();
        let target = before@.insert(keys[place], self.values()[place]);
        assert(keys.contains(keys[place]));
        assert forall|name: Seq<char>| #[trigger]
            target.contains_key(name) implies self@[name] == target[name] by {
            let j = keys.index_of(name);
            assert(keys[j] == name);
        }
        assert(self@ =~= target);
    }

    /// An empty map that lives under `prefix`.
    pub fn new(prefix: Vec<u8>) -> (map: Self)
        ensures
            map.wf(),
            map@ == Map::<Seq<char>, V>::empty(),
            map.keys() == Seq::<Seq<char>>::empty(),
            map.prefix() == prefix@,
    {
        let map = AccountMap { prefix, keys: Vec::new(), values: Vec::new() };
        proof {
            assert(map.keys() =~= Seq::<Seq<char>>::empty());
            assert(map@ =~= Map::<Seq<char>, V>::empty());
        }
        map
    }

    /// The number of accounts that have an entry.
    pub fn len(&self) -> (count: u64)
        requires
            self.wf(),
        ensures
            count == self@.dom().len(),
            count == self.keys().len(),
    {
        proof {
            self.lemma_entries();
        }
        self.keys.len() as u64
    }

    /// The storage key of this map.
    pub fn storage_prefix(&self) -> (key: &Vec<u8>)
        ensures
            key@ == self.prefix(),
    {
        &self.prefix
    }

    /// The place of the entry of `key`, if it has one.
    pub fn position(&self, key: &AccountId) -> (place: Option<usize>)
        requires
            self.wf(),
        ensures
            self@.contains_key(key@) ==> place.is_some() && place.unwrap() < self.keys().len()
                && self.keys()[place.unwrap() as int] == key@,
            !self@.contains_key(key@) ==> place.is_none(),
    {
        let mut i: usize = 0;
        while i < self.keys.len()
            invariant
                i <= self.keys@.len(),
                forall|j: int| 0 <= j < i ==> self.keys()[j] != key@,
            decreases self.keys@.len() - i,
        {
            if self.keys[i] == *key {
                proof {
                    assert(self.keys()[i as int] == key@);
                    assert(self.keys().contains(key@));
                }
                return Some(i);
            }
            i = i + 1;
        }
        None
    }

    /// Whether `key` has an entry.
    pub fn contains_key(&self, key: &AccountId) -> (found: bool)
        requires
            self.wf(),
        ensures
            found == self@.contains_key(key@),
    {
        self.position(key).is_some()
    }

    /// The value of `key`, if it has an entry.
    pub fn get(&self, key: &AccountId) -> (value: Option<&V>)
        requires
            self.wf(),
        ensures
            self@.contains_key(key@) ==> value == Some(&self@[key@]),
            !self@.contains_key(key@) ==> value.is_none(),
    {
        match self.position(key) {
            Some(i) => {
                proof {
                    self.lemma_entries();
                }
                Some(&self.values[i])
            },
            None => None,
        }
    }

    /// The value at `place`, to be changed where it stands.
    pub fn value_mut(&mut self, place: usize) -> (value: &mut V)
        requires
            old(self).wf(),
            place < old(self).keys().len(),
        ensures
            *value == old(self).values()[place as int],
            final(self).wf(),
            final(self).values() == old(self).values().update(place as int, *final(value)),
            final(self).keys() == old(self).keys(),
            final(self).prefix() == old(self).prefix(),
    {
        &mut self.values[place]
    }

    /// Gives `key` the value `value`, in place of the one that it had, or in
    /// a new entry behind the others.
    pub fn insert(&mut self, key: AccountId, value: V)
        requires
            old(self).wf(),
        ensures
            final(self).wf(),
            final(self)@ == old(self)@.insert(key@, value),
            final(self).prefix() == old(self).prefix(),
            old(self)@.contains_key(key@) ==> final(self).keys() == old(self).keys(),
            !old(self)@.contains_key(key@) ==> final(self).keys() == old(self).keys().push(key@),
    {
        proof {
            self.lemma_entries();
        }
        match self.position(&key) {
            Some(i) => {
                self.values[i] = value;
                proof {
                    assert(self.keys() =~= old(self).keys());
                    self.lemma_entries();
                    assert(self@ =~= old(self)@.insert(key@, value));
                }
            },
            None => {
                self.keys.push(key);
                self.values.push(value);
                proof {
                    assert(self.keys() =~= old(self).keys().push(key@));
                    assert(self.keys().no_duplicates());
                    self.lemma_entries();
                    let before = old(self).keys();
                    let after = self.keys();
                    let target = old(self)@.insert(key@, value);
                    assert forall|name: Seq<char>| self@.contains_key(name) implies #[trigger]
                        target.contains_key(name) by {
                        let j = after.index_of(name);
                        assert(after[j] == name);
                        if j < before.len() {
                            assert(before[j] == name);
                            assert(before.contains(name));
                        }
                    }
                    assert forall|name: Seq<char>| #[trigger]
                        target.contains_key(name) implies self@.contains_key(name) by {
                        if name == key@ {
                            assert(after[before.len() as int] == name);
                        } else {
                            let j = before.index_of(name);
                            assert(after[j] == name);
                        }
                        assert(after.contains(name));
                    }
                    assert forall|name: Seq<char>| #[trigger]
                        target.contains_key(name) implies self@[name] == target[name] by {
                        let j = after.index_of(name);
                        assert(after[j] == name);
                        if j < before.len() {
                            assert(before[j] == name);
                            assert(before.contains(name));
                            assert(before[before.index_of(name)] == name);
                        }
                    }
                    assert(self@ =~= target);
                }
            },
        }
    }
}

} // verus!
