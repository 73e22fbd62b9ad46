use vstd::prelude::*;
use crate::account::AccountId;
use crate::sequence::Sequence;

verus! {

/// What a list of accounts names.
pub open spec fn account_views(accounts: Seq<AccountId>) -> Seq<Seq<char>> {
    Seq::new(accounts.len(), |i: int| accounts[i]@)
}

/// The list `names` without `name`: the others keep their order.
pub open spec fn excluding(names: Seq<Seq<char>>, name: Seq<char>) -> Seq<Seq<char>> {
    if names.contains(name) {
        names.remove(names.index_of(name))
    } else {
        names
    }
}

/// The list `names` with `name`: unchanged where it is there already, else
/// with `name` behind the others.
pub open spec fn including(names: Seq<Seq<char>>, name: Seq<char>) -> Seq<Seq<char>> {
    if names.contains(name) {
        names
    } else {
        names.push(name)
    }
}

/// Adding a name to a list without repetitions leaves it so, and the list
/// then holds the name and what it held before.
pub proof fn lemma_including(names: Seq<Seq<char>>, name: Seq<char>)
    requires
        names.no_duplicates(),
    ensures
        including(names, name).no_duplicates(),
        including(names, name).contains(name),
        forall|other: Seq<char>| #[trigger]
            including(names, name).contains(other) <==> other == name || names.contains(other),
{
    let after = including(names, name);
    if !names.contains(name) {
        assert(after[names.len() as int] == name);
        assert forall|other: Seq<char>| names.contains(other) implies #[trigger] after.contains(
            other,
        ) by {
            let j = names.index_of(other);
            assert(after[j] == other);
        }
        assert forall|other: Seq<char>| #[trigger] after.contains(other) implies other == name
            || names.contains(other) by {
            let j = after.index_of(other);
            if j < names.len() {
                assert(names[j] == other);
            }
        }
    }
}

/// Taking a name out of a list without repetitions leaves it so, and the
/// list then holds what it held before but the name.
pub proof fn lemma_excluding(names: Seq<Seq<char>>, name: Seq<char>)
    requires
        names.no_duplicates(),
    ensures
        excluding(names, name).no_duplicates(),
        !excluding(names, name).contains(name),
        forall|other: Seq<char>| #[trigger]
            excluding(names, name).contains(other) <==> other != name && names.contains(other),
{
    let after = excluding(names, name);
    if names.contains(name) {
        let at = names.index_of(name);
        assert(names[at] == name);
        assert forall|i: int, j: int| 0 <= i < after.len() && 0 <= j < after.len() && i != j implies after[i] != after[j] by {
            let ii = if i < at { i } else { i + 1 };
            let jj = if j < at { j } else { j + 1 };
            assert(after[i] == names[ii]);
            assert(after[j] == names[jj]);
        }
        assert forall|other: Seq<char>| #[trigger] after.contains(other) implies other != name
            && names.contains(other) by {
            let i = after.index_of(other);
            let ii = if i < at { i } else { i + 1 };
            assert(after[i] == names[ii]);
        }
        assert forall|other: Seq<char>| other != name && names.contains(other) implies #[trigger] after.contains(other) by {
            let j = names.index_of(other);
            assert(names[j] == other);
            let i = if j < at { j } else { j - 1 };
            assert(after[i] == other);
        }
    }
}

/// A set of accounts that remembers the order in which they came in.
pub struct AccountSet {
    elements: Sequence<AccountId>,
}

impl View for AccountSet {
    type V = Seq<Seq<char>>;

    /// The accounts of the set, the first that came in first.
    closed spec fn view(&self) -> Seq<Seq<char>> {
        account_views(self.elements@)
    }
}

impl AccountSet {
    /// The storage key that this set was made with.
    pub closed spec fn prefix(&self) -> Seq<u8> {
        self.elements.prefix()
    }

    /// No account is in the set twice.
    pub open spec fn wf(&self) -> bool {
        self@.no_duplicates()
    }

    /// An empty set that lives under `prefix`.
    pub fn new(prefix: Vec<u8>) -> (set: Self)
        ensures
            set.wf(),
            set@ == Seq::<Seq<char>>::empty(),
            set.prefix() == prefix@,
    {
        let set = AccountSet { elements: Sequence::new(prefix) };
        proof {
            assert(set@ =~= Seq::<Seq<char>>::empty());
        }
        set
    }

    /// The number of accounts in the set.
    pub fn len(&self) -> (count: u64)
        ensures
            count == self@.len(),
    {
        self.elements.len()
    }

    /// The accounts of the set as a sequence, in the order in which they
    /// came in.
    pub fn as_vector(&self) -> (elements: &Sequence<AccountId>)
        ensures
            account_views(elements@) == self@,
            elements.prefix() == self.prefix(),
    {
        &self.elements
    }

    /// The place of `account` in the set, if it is there.
    fn position(&self, account: &AccountId) -> (place: Option<u64>)
        ensures
            self@.contains(account@) ==> place.is_some() && place.unwrap() < self@.len()
                && self@[place.unwrap() as int] == account@,
            !self@.contains(account@) ==> place.is_none(),
    {
        let count: u64 = self.elements.len();
        let mut i: u64 = 0;
        while i < count
            invariant
                count == self@.len(),
                i <= count,
                forall|j: int| 0 <= j < i ==> self@[j] != account@,
            decreases count - i,
        {
            match self.elements.get(i) {
                Some(element) => {
                    if *element == *account {
                        proof {
                            assert(self@[i as int] == account@);
                        }
                        return Some(i);
                    }
                },
                None => {},
            }
            i = i + 1;
        }
        None
    }

    /// Whether `account` is in the set.
    pub fn contains(&self, account: &AccountId) -> (found: bool)
        ensures
            found == self@.contains(account@),
    {
        self.position(account).is_some()
    }

    /// Puts `account` into the set, behind the others, unless it is there
    /// already. Says whether it was put in.
    pub fn insert(&mut self, account: AccountId) -> (added: bool)
        requires
            old(self).wf(),
        ensures
            final(self).wf(),
            final(self)@ == including(old(self)@, account@),
            added == !old(self)@.contains(account@),
            final(self).prefix() == old(self).prefix(),
    {
        proof {
            lemma_including(self@, account@);
        }
        if self.contains(&account) {
            false
        } else {
            self.elements.push(account);
            proof {
                assert(self@ =~= old(self)@.push(account@));
            }
            true
        }
    }

    /// Takes `account` out of the set, if it is there; the others keep
    /// their order. Says whether it was taken out.
    pub fn remove(&mut self, account: &AccountId) -> (removed: bool)
        requires
            old(self).wf(),
        ensures
            final(self).wf(),
            final(self)@ == excluding(old(self)@, account@),
            removed == old(self)@.contains(account@),
            final(self).prefix() == old(self).prefix(),
    {
        proof {
            lemma_excluding(self@, account@);
        }
        match self.position(account) {
            Some(place) => {
                let _ = self.elements.remove(place);
                proof {
                    let at = old(self)@.index_of(account@);
                    assert(old(self)@[at] == account@);
                    assert(at == place);
                    assert(self@ =~= old(self)@.remove(at));
                }
                true
            },
            None => false,
        }
    }
}

} // verus!
