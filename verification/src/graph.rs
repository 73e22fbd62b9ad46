use vstd::prelude::*;
use crate::account::AccountId;
use crate::account_map::AccountMap;
use crate::account_set::{account_views, excluding, including, AccountSet};
use crate::keys::{account_key, SK};
use crate::laws::{
    lemma_follow_symmetry, lemma_follow_valid, lemma_unfollow_removes, lemma_unfollow_valid,
};
use crate::model::{list_of, GraphView};

verus! {

/// What each set of a map of sets holds.
pub open spec fn set_views(sets: Map<Seq<char>, AccountSet>) -> Map<Seq<char>, Seq<Seq<char>>> {
    Map::new(|name: Seq<char>| sets.contains_key(name), |name: Seq<char>| sets[name]@)
}

/// One side of the graph is a map that is kept under `map_key` and has one
/// set without repetitions for each of its accounts, kept under the key
/// that `tag` and the name of the account give.
spec fn side_wf(side: &AccountMap<AccountSet>, map_key: Seq<u8>, tag: u8) -> bool {
    &&& side.wf()
    &&& side.prefix() == map_key
    &&& forall|i: int|
        0 <= i < side.keys().len() ==> (#[trigger] side.values()[i]).wf() && side.values()[i].prefix()
            == account_key(tag, side.keys()[i])
}

/// In a well-formed side the set of every account has no repetitions and is
/// kept under the key of the account.
proof fn lemma_side(side: &AccountMap<AccountSet>, map_key: Seq<u8>, tag: u8)
    requires
        side_wf(side, map_key, tag),
    ensures
        forall|name: Seq<char>| #[trigger]
            side@.contains_key(name) ==> side@[name].wf() && side@[name].prefix() == account_key(
                tag,
                name,
            ),
{
    side.lemma_entries();
    assert forall|name: Seq<char>| #[trigger] side@.contains_key(name) implies side@[name].wf()
        && side@[name].prefix() == account_key(tag, name) by {
        let i = side.keys().index_of(name);
        assert(side.keys()[i] == name);
        assert(side.values()[i].wf());
    }
}

/// Puts `member` into the set of `owner`, which is made if there is none.
fn add_member(
    side: &mut AccountMap<AccountSet>,
    Ghost(map_key): Ghost<Seq<u8>>,
    tag: u8,
    owner: AccountId,
    member: AccountId,
)
    requires
        side_wf(old(side), map_key, tag),
        tag == 4 || tag == 6,
    ensures
        side_wf(final(side), map_key, tag),
        set_views(final(side)@) == set_views(old(side)@).insert(
            owner@,
            including(list_of(set_views(old(side)@), owner@), member@),
        ),
{
    proof {
        side.lemma_entries();
        lemma_side(side, map_key, tag);
    }
    let ghost before = *side;
    let ghost target = set_views(before@).insert(
        owner@,
        including(list_of(set_views(before@), owner@), member@),
    );
    match side.position(&owner) {
        Some(place) => {
            let set = side.value_mut(place);
            set.insert(member);
            proof {
                side.lemma_value_changed(&before, place as int);
                assert(set_views(side@) =~= target);
            }
        },
        None => {
            let name = if tag == 4 {
                SK::following_user(&owner)
            } else {
                SK::follower_user(&owner)
            };
            let mut set = AccountSet::new(name.into_storage_key());
            set.insert(member);
            let ghost owner_name = owner@;
            side.insert(owner, set);
            proof {
                assert(list_of(set_views(before@), owner_name) =~= Seq::<Seq<char>>::empty());
                assert(set_views(side@) =~= target);
                side.lemma_entries();
                assert forall|i: int| 0 <= i < side.keys().len() implies (
                #[trigger] side.values()[i]).wf() && side.values()[i].prefix() == account_key(
                    tag,
                    side.keys()[i],
                ) by {
                    if i < before.keys().len() {
                        assert(side.keys()[i] == before.keys()[i]);
                        assert(before@.contains_key(before.keys()[i]));
                        assert(side@[side.keys()[i]] == before@[before.keys()[i]]);
                        assert(before.values()[i].wf());
                    } else {
                        assert(side.keys()[i] == owner_name);
                        assert(side@[side.keys()[i]] == set);
                        assert(side.values()[i] == set);
                    }
                }
            }
        },
    }
}

/// Takes `member` out of the set of `owner`, if there is such a set.
fn remove_member(
    side: &mut AccountMap<AccountSet>,
    Ghost(map_key): Ghost<Seq<u8>>,
    Ghost(tag): Ghost<u8>,
    owner: &AccountId,
    member: &AccountId,
)
    requires
        side_wf(old(side), map_key, tag),
    ensures
        side_wf(final(side), map_key, tag),
        old(side)@.contains_key(owner@) ==> set_views(final(side)@) == set_views(
            old(side)@,
        ).insert(owner@, excluding(old(side)@[owner@]@, member@)),
        !old(side)@.contains_key(owner@) ==> set_views(final(side)@) == set_views(old(side)@),
{
    proof {
        side.lemma_entries();
        lemma_side(side, map_key, tag);
    }
    let ghost before = *side;
    match side.position(owner) {
        Some(place) => {
            let set = side.value_mut(place);
            set.remove(member);
            proof {
                side.lemma_value_changed(&before, place as int);
                assert(set_views(side@) =~= set_views(before@).insert(
                    owner@,
                    excluding(before@[owner@]@, member@),
                ));
            }
        },
        None => {},
    }
}

/// The copies of the accounts of `set`, in their order: none where there is
/// no set.
fn members(set: Option<&AccountSet>) -> (accounts: Vec<AccountId>)
    ensures
        set.is_some() ==> account_views(accounts@) == set.unwrap()@,
        set.is_none() ==> accounts@.len() == 0,
{
    let mut accounts: Vec<AccountId> = Vec::new();
    match set {
        Some(set) => {
            let elements = set.as_vector();
            let count: u64 = elements.len();
            let mut i: u64 = 0;
            while i < count
                invariant
                    count == elements@.len(),
                    i <= count,
                    accounts@.len() == i,
                    forall|j: int| 0 <= j < i ==> accounts@[j]@ == elements@[j]@,
                decreases count - i,
            {
                match elements.get(i) {
                    Some(account) => {
                        accounts.push(account.clone());
                    },
                    None => {},
                }
                i = i + 1;
            }
            proof {
                assert(account_views(accounts@) =~= account_views(elements@));
            }
        },
        None => {},
    }
    accounts
}

/// The follow relation between accounts, kept from both sides: for each
/// account the set of those that it follows, and the set of its followers.
pub struct SocialGraph {
    followings: AccountMap<AccountSet>,
    followers: AccountMap<AccountSet>,
}

impl View for SocialGraph {
    type V = GraphView;

    /// The lists of both sides.
    closed spec fn view(&self) -> GraphView {
        GraphView {
            followings: set_views(self.followings@),
            followers: set_views(self.followers@),
        }
    }
}

impl SocialGraph {
    /// The storage key under which the set of those that `name` follows is
    /// kept.
    pub closed spec fn followings_prefix(&self, name: Seq<char>) -> Seq<u8> {
        self.followings@[name].prefix()
    }

    /// The storage key under which the set of the followers of `name` is
    /// kept.
    pub closed spec fn followers_prefix(&self, name: Seq<char>) -> Seq<u8> {
        self.followers@[name].prefix()
    }

    /// Both sides are maps of sets without repetitions, each kept under the
    /// key that belongs to it.
    pub closed spec fn shaped(&self) -> bool {
        &&& side_wf(&self.followings, SK::Followings.key(), 4)
        &&& side_wf(&self.followers, SK::Followers.key(), 6)
    }

    /// The graph is stored as it should be, and its two sides agree.
    pub open spec fn wf(&self) -> bool {
        &&& self.shaped()
        &&& self@.valid()
    }

    /// In a well-formed graph every set is kept under the key that the name
    /// of its account gives.
    pub proof fn lemma_namespaced(&self, name: Seq<char>)
        requires
            self.wf(),
        ensures
            self@.followings.contains_key(name) ==> self.followings_prefix(name) == account_key(
                4,
                name,
            ),
            self@.followers.contains_key(name) ==> self.followers_prefix(name) == account_key(
                6,
                name,
            ),
    {
        lemma_side(&self.followings, SK::Followings.key(), 4);
        lemma_side(&self.followers, SK::Followers.key(), 6);
    }

    /// A graph without edges.
    pub fn new() -> (graph: Self)
        ensures
            graph.wf(),
            graph@ == GraphView::empty(),
    {
        let graph = SocialGraph {
            followings: AccountMap::new(SK::Followings.into_storage_key()),
            followers: AccountMap::new(SK::Followers.into_storage_key()),
        };
        proof {
            assert(graph@.followings =~= Map::<Seq<char>, Seq<Seq<char>>>::empty());
            assert(graph@.followers =~= Map::<Seq<char>, Seq<Seq<char>>>::empty());
            assert(graph@ =~= GraphView::empty());
        }
        graph
    }

    /// Records that `follower` follows `followee`, on both sides. Where the
    /// edge is there already, nothing changes. An account may follow
    /// itself.
    pub fn follow(&mut self, follower: AccountId, followee: AccountId)
        requires
            old(self).wf(),
        ensures
            final(self).wf(),
            final(self)@ == old(self)@.follow(follower@, followee@),
            final(self)@.is_following(follower@, followee@),
            final(self)@.is_followed_by(followee@, follower@),
    {
        proof {
            lemma_follow_valid(self@, follower@, followee@);
            lemma_follow_symmetry(self@, follower@, followee@);
        }
        let follower_copy = follower.clone();
        let followee_copy = followee.clone();
        add_member(&mut self.followings, Ghost(SK::Followings.key()), 4, follower, followee);
        add_member(
            &mut self.followers,
            Ghost(SK::Followers.key()),
            6,
            followee_copy,
            follower_copy,
        );
        proof {
            assert(self@ =~= old(self)@.follow(follower@, followee@));
        }
    }

    /// Records that `follower` no longer follows `followee`, on both sides.
    /// Where there is no such edge, nothing changes.
    pub fn unfollow(&mut self, follower: &AccountId, followee: &AccountId)
        requires
            old(self).wf(),
        ensures
            final(self).wf(),
            final(self)@ == old(self)@.unfollow(follower@, followee@),
            !final(self)@.is_following(follower@, followee@),
            !final(self)@.is_followed_by(followee@, follower@),
    {
        proof {
            lemma_unfollow_valid(self@, follower@, followee@);
            lemma_unfollow_removes(self@, follower@, followee@);
        }
        remove_member(
            &mut self.followings,
            Ghost(SK::Followings.key()),
            Ghost(4),
            follower,
            followee,
        );
        remove_member(
            &mut self.followers,
            Ghost(SK::Followers.key()),
            Ghost(6),
            followee,
            follower,
        );
        proof {
            assert(self@ =~= old(self)@.unfollow(follower@, followee@));
        }
    }

    /// Whether `follower` follows `followee`. An account of which nothing
    /// is recorded follows nobody.
    pub fn is_following(&self, follower: &AccountId, followee: &AccountId) -> (found: bool)
        requires
            self.wf(),
        ensures
            found == self@.is_following(follower@, followee@),
    {
        match self.followings.get(follower) {
            Some(set) => set.contains(followee),
            None => {
                proof {
                    assert(self@.followings_of(follower@) =~= Seq::<Seq<char>>::empty());
                }
                false
            },
        }
    }

    /// The set of the accounts that `user` follows, if one was made.
    pub fn followings_of(&self, user: &AccountId) -> (set: Option<&AccountSet>)
        requires
            self.wf(),
        ensures
            self@.followings.contains_key(user@) ==> set.is_some() && set.unwrap()@
                == self@.followings[user@] && set.unwrap().prefix() == account_key(4, user@),
            !self@.followings.contains_key(user@) ==> set.is_none(),
    {
        proof {
            lemma_side(&self.followings, SK::Followings.key(), 4);
        }
        self.followings.get(user)
    }

    /// The set of the followers of `user`, if one was made.
    pub fn followers_of(&self, user: &AccountId) -> (set: Option<&AccountSet>)
        requires
            self.wf(),
        ensures
            self@.followers.contains_key(user@) ==> set.is_some() && set.unwrap()@
                == self@.followers[user@] && set.unwrap().prefix() == account_key(6, user@),
            !self@.followers.contains_key(user@) ==> set.is_none(),
    {
        proof {
            lemma_side(&self.followers, SK::Followers.key(), 6);
        }
        self.followers.get(user)
    }

    /// The accounts that `user` follows, in the order in which they were
    /// followed: none for an account of which nothing is recorded.
    pub fn list_followings(&self, user: &AccountId) -> (accounts: Vec<AccountId>)
        requires
            self.wf(),
        ensures
            account_views(accounts@) == self@.followings_of(user@),
    {
        let accounts = members(self.followings.get(user));
        proof {
            assert(account_views(accounts@) =~= self@.followings_of(user@));
        }
        accounts
    }

    /// The followers of `user`, in the order in which they began to follow:
    /// none for an account of which nothing is recorded.
    pub fn list_followers(&self, user: &AccountId) -> (accounts: Vec<AccountId>)
        requires
            self.wf(),
        ensures
            account_views(accounts@) == self@.followers_of(user@),
    {
        let accounts = members(self.followers.get(user));
        proof {
            assert(account_views(accounts@) =~= self@.followers_of(user@));
        }
        accounts
    }
}

} // verus!
