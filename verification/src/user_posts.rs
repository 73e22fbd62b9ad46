use vstd::prelude::*;
use crate::account::AccountId;
use crate::account_map::AccountMap;
use crate::keys::{account_key, SK};
use crate::model::list_of;
use crate::post::PostId;
use crate::sequence::Sequence;

verus! {

/// For each author the identifiers of that author's posts, in the order of
/// their creation. The list of an author is made with the author's first
/// post and is kept under a key of its own.
pub struct UserPostIndex {
    lists: AccountMap<Sequence<PostId>>,
}

impl View for UserPostIndex {
    type V = Map<Seq<char>, Seq<PostId>>;

    /// The list of each author that has one.
    closed spec fn view(&self) -> Map<Seq<char>, Seq<PostId>> {
        Map::new(
            |name: Seq<char>| self.lists@.contains_key(name),
            |name: Seq<char>| self.lists@[name]@,
        )
    }
}

impl UserPostIndex {
    /// The storage key under which the list of `name` is kept.
    pub closed spec fn prefix_of(&self, name: Seq<char>) -> Seq<u8> {
        self.lists@[name].prefix()
    }

    /// The map has one list for each author, kept under the key of the post
    /// list of that author.
    pub closed spec fn wf(&self) -> bool {
        &&& self.lists.wf()
        &&& self.lists.prefix() == SK::UserPosts.key()
        &&& forall|i: int|
            0 <= i < self.lists.keys().len() ==> (#[trigger] self.lists.values()[i]).prefix()
                == account_key(2, self.lists.keys()[i])
    }

    /// In a well-formed index the list of every author is kept under the
    /// key that the name of the author gives, and the authors are finitely
    /// many.
    pub proof fn lemma_namespaced(&self, name: Seq<char>)
        requires
            self.wf(),
        ensures
            self@.dom().finite(),
            self@.contains_key(name) ==> self.prefix_of(name) == account_key(2, name),
    {
        self.lists.lemma_entries();
        assert(self@.dom() =~= self.lists@.dom());
        if self@.contains_key(name) {
            let i = self.lists.keys().index_of(name);
            assert(self.lists.keys()[i] == name);
            assert(self.lists.values()[i].prefix() == account_key(2, name));
        }
    }

    /// An index without lists.
    pub fn new() -> (index: Self)
        ensures
            index.wf(),
            index@ == Map::<Seq<char>, Seq<PostId>>::empty(),
    {
        let index = UserPostIndex { lists: AccountMap::new(SK::UserPosts.into_storage_key()) };
        proof {
            assert(index@ =~= Map::<Seq<char>, Seq<PostId>>::empty());
        }
        index
    }

    /// The number of authors.
    pub fn len(&self) -> (count: u64)
        requires
            self.wf(),
        ensures
            count == self@.dom().len(),
    {
        proof {
            assert(self@.dom() =~= self.lists@.dom());
        }
        self.lists.len()
    }

    /// Appends `id` to the list of `author`, which is made if there is none.
    pub fn record(&mut self, author: AccountId, id: PostId)
        requires
            old(self).wf(),
        ensures
            final(self).wf(),
            final(self)@ == old(self)@.insert(author@, list_of(old(self)@, author@).push(id)),
    {
        proof {
            self.lists.lemma_entries();
        }
        match self.lists.position(&author) {
            Some(place) => {
                let ghost before = self.lists;
                let list = self.lists.value_mut(place);
                list.push(id);
                proof {
                    self.lists.lemma_value_changed(&before, place as int);
                    assert(self@ =~= old(self)@.insert(
                        author@,
                        list_of(old(self)@, author@).push(id),
                    ));
                }
            },
            None => {
                let mut list: Sequence<PostId> = Sequence::new(
                    SK::user_post(&author).into_storage_key(),
                );
                list.push(id);
                let ghost name = author@;
                self.lists.insert(author, list);
                proof {
                    assert(list_of(old(self)@, name) =~= Seq::<PostId>::empty());
                    assert(Seq::<PostId>::empty().push(id) =~= list@);
                    assert(self@ =~= old(self)@.insert(name, list_of(old(self)@, name).push(id)));
                    self.lists.lemma_entries();
                    assert forall|i: int| 0 <= i < self.lists.keys().len() implies (
                    #[trigger] self.lists.values()[i]).prefix() == account_key(
                        2,
                        self.lists.keys()[i],
                    ) by {
                        if i < old(self).lists.keys().len() {
                            assert(self.lists.keys()[i] == old(self).lists.keys()[i]);
                            assert(self.lists@[self.lists.keys()[i]] == old(self).lists@[old(
                                self,
                            ).lists.keys()[i]]);
                            assert(old(self).lists.values()[i].prefix() == account_key(
                                2,
                                old(self).lists.keys()[i],
                            ));
                        }
                    }
                }
            },
        }
    }

    /// The list of `author`, if there is one.
    pub fn get(&self, author: &AccountId) -> (list: Option<&Sequence<PostId>>)
        requires
            self.wf(),
        ensures
            self@.contains_key(author@) ==> list.is_some() && list.unwrap()@ == self@[author@]
                && list.unwrap().prefix() == account_key(2, author@),
            !self@.contains_key(author@) ==> list.is_none(),
    {
        proof {
            self.lemma_namespaced(author@);
        }
        self.lists.get(author)
    }

    /// The identifiers of the posts of `author`, oldest first: none for an
    /// account that has not published.
    pub fn list(&self, author: &AccountId) -> (ids: Vec<PostId>)
        requires
            self.wf(),
        ensures
            ids@ == list_of(self@, author@),
    {
        let mut ids: Vec<PostId> = Vec::new();
        match self.lists.get(author) {
            Some(list) => {
                let count: u64 = list.len();
                let mut i: u64 = 0;
                while i < count
                    invariant
                        count == list@.len(),
                        i <= count,
                        ids@ == list@.subrange(0, i as int),
                    decreases count - i,
                {
                    match list.get(i) {
                        Some(id) => {
                            ids.push(*id);
                        },
                        None => {},
                    }
                    proof {
                        assert(ids@ =~= list@.subrange(0, i + 1));
                    }
                    i = i + 1;
                }
                proof {
                    assert(ids@ =~= list@);
                }
            },
            None => {},
        }
        ids
    }
}

} // verus!
