use vstd::prelude::*;
use crate::account::{AccountId, Context};
use crate::account_set::{account_views, AccountSet};
use crate::error::FeedError;
use crate::graph::SocialGraph;
use crate::laws::lemma_create_post_valid;
use crate::ledger::Ledger;
use crate::model::FeedView;
use crate::paginate::{
    check_page_size, page_of, page_skip, paged_vector, targets, MAX_PAGE_SIZE,
};
use crate::post::{content_fits, post_views, Post, PostId, PostView};
use crate::user_posts::UserPostIndex;

verus! {

/// The copies of the posts that `page` refers to, in its order.
fn copy_posts(page: Vec<&Post>) -> (posts: Vec<Post>)
    ensures
        post_views(posts@) == post_views(targets(page@)),
{
    let mut posts: Vec<Post> = Vec::new();
    let mut i: usize = 0;
    while i < page.len()
        invariant
            i <= page@.len(),
            posts@.len() == i,
            forall|j: int| 0 <= j < i ==> posts@[j]@ == page@[j]@,
        decreases page@.len() - i,
    {
        posts.push(page[i].clone());
        i = i + 1;
    }
    proof {
        assert(post_views(posts@) =~= post_views(targets(page@)));
    }
    posts
}

/// The copies of the accounts that `page` refers to, in its order.
fn copy_accounts(page: Vec<&AccountId>) -> (accounts: Vec<AccountId>)
    ensures
        account_views(accounts@) == account_views(targets(page@)),
{
    let mut accounts: Vec<AccountId> = Vec::new();
    let mut i: usize = 0;
    while i < page.len()
        invariant
            i <= page@.len(),
            accounts@.len() == i,
            forall|j: int| 0 <= j < i ==> accounts@[j]@ == page@[j]@,
        decreases page@.len() - i,
    {
        accounts.push(page[i].clone());
        i = i + 1;
    }
    proof {
        assert(account_views(accounts@) =~= account_views(targets(page@)));
    }
    accounts
}

/// The accounts of `set` in their order: none where there is no set.
spec fn members_of(set: Option<&AccountSet>) -> Seq<Seq<char>> {
    match set {
        Some(users) => users@,
        None => Seq::empty(),
    }
}

/// A page of the accounts of `set`, the newest first. Where there is no set
/// the page is empty. A page size above 100 is refused in either case.
fn paged_accounts(set: Option<&AccountSet>, page: u64, page_size: u64) -> (result: Result<
    Vec<AccountId>,
    FeedError,
>)
    ensures
        page_size > MAX_PAGE_SIZE ==> result.is_err() && result.unwrap_err()
            == FeedError::PageSizeExceeded,
        page_size <= MAX_PAGE_SIZE ==> result.is_ok() && account_views(result.unwrap()@)
            == page_of(members_of(set), page, page_size),
{
    match check_page_size(page_size) {
        Ok(()) => {},
        Err(error) => {
            return Err(error);
        },
    }
    match set {
        Some(users) => {
            let elements = users.as_vector();
            match paged_vector(elements, page, page_size) {
                Ok(found) => {
                    let accounts = copy_accounts(found);
                    proof {
                        assert(account_views(accounts@) =~= page_of(users@, page, page_size));
                    }
                    Ok(accounts)
                },
                Err(error) => Err(error),
            }
        },
        None => {
            let accounts: Vec<AccountId> = Vec::new();
            proof {
                assert(account_views(accounts@) =~= page_of(members_of(set), page, page_size));
            }
            Ok(accounts)
        },
    }
}

/// The whole state of the feed: the ledger of posts, the index of the posts
/// of each author, and the follow graph. It changes only through the
/// operations below.
pub struct Contract {
    ledger: Ledger,
    user_posts: UserPostIndex,
    graph: SocialGraph,
}

impl View for Contract {
    type V = FeedView;

    /// What the state holds, as plain values.
    closed spec fn view(&self) -> FeedView {
        FeedView { posts: self.ledger@, user_posts: self.user_posts@, graph: self.graph@ }
    }
}

impl Contract {
    /// Each part is stored as it should be.
    pub closed spec fn shaped(&self) -> bool {
        &&& self.ledger.wf()
        &&& self.user_posts.wf()
        &&& self.graph.shaped()
    }

    /// The state is stored as it should be, and what it holds is valid.
    pub open spec fn wf(&self) -> bool {
        &&& self.shaped()
        &&& self@.valid()
    }

    /// The state in which nothing has happened yet.
    pub fn new() -> (contract: Self)
        ensures
            contract.wf(),
            contract@ == FeedView::empty(),
    {
        let contract = Contract {
            ledger: Ledger::new(),
            user_posts: UserPostIndex::new(),
            graph: SocialGraph::new(),
        };
        proof {
            assert(contract@ =~= FeedView::empty());
        }
        contract
    }

    /// The ledger of posts.
    pub fn ledger(&self) -> (ledger: &Ledger)
        requires
            self.wf(),
        ensures
            ledger.wf(),
            ledger@ == self@.posts,
    {
        &self.ledger
    }

    /// The index of the posts of each author.
    pub fn user_posts(&self) -> (index: &UserPostIndex)
        requires
            self.wf(),
        ensures
            index.wf(),
            index@ == self@.user_posts,
    {
        &self.user_posts
    }

    /// The follow graph.
    pub fn graph(&self) -> (graph: &SocialGraph)
        requires
            self.wf(),
        ensures
            graph.wf(),
            graph@ == self@.graph,
    {
        &self.graph
    }

    /// Publishes `content` as a post of the account of `context`, created at
    /// the time of `context`, and returns the post. Its identifier is the
    /// number of posts before it. Content of more than 300 bytes is refused,
    /// and then nothing changes.
    pub fn create_post(&mut self, context: &Context, content: String) -> (result: Result<
        Post,
        FeedError,
    >)
        requires
            old(self).wf(),
        ensures
            final(self).wf(),
            content_fits(content@) ==> result.is_ok() && final(self)@ == old(self)@.create_post(
                content@,
                context.signer(),
                context.timestamp(),
            ) && result.unwrap()@ == (PostView {
                id: old(self)@.posts.len() as PostId,
                content: content@,
                user: context.signer(),
                created_at: context.timestamp(),
            }),
            !content_fits(content@) ==> result.is_err() && result.unwrap_err()
                == FeedError::ContentTooLong && final(self)@ == old(self)@,
    {
        let user = context.current_account().clone();
        let count: u64 = self.ledger.len();
        proof {
            if content_fits(content@) {
                lemma_create_post_valid(self@, content@, user@, context.timestamp());
            }
        }
        match self.ledger.create(content, user.clone(), context.now()) {
            Ok(post) => {
                self.user_posts.record(user, post.id());
                proof {
                    assert(self@ =~= old(self)@.create_post(
                        content@,
                        context.signer(),
                        context.timestamp(),
                    ));
                }
                Ok(post)
            },
            Err(error) => {
                proof {
                    assert(self@ =~= old(self)@);
                }
                Err(error)
            },
        }
    }

    /// A page of all posts, newest first. The pages 0 and 1 are both the
    /// first page. A page size above 100 is refused.
    pub fn public_timeline(&self, page: u64, page_size: u64) -> (result: Result<
        Vec<Post>,
        FeedError,
    >)
        requires
            self.wf(),
        ensures
            page_size > MAX_PAGE_SIZE ==> result.is_err() && result.unwrap_err()
                == FeedError::PageSizeExceeded,
            page_size <= MAX_PAGE_SIZE ==> result.is_ok() && post_views(result.unwrap()@)
                == self@.public_timeline(page, page_size),
    {
        match paged_vector(self.ledger.posts(), page, page_size) {
            Ok(found) => {
                let posts = copy_posts(found);
                proof {
                    assert(post_views(posts@) =~= self@.public_timeline(page, page_size));
                }
                Ok(posts)
            },
            Err(error) => Err(error),
        }
    }

    /// A page of the posts of `user`, newest first. An account that has not
    /// published has an empty timeline. A page size above 100 is refused,
    /// whoever the user is.
    pub fn user_timeline(&self, user: AccountId, page: u64, page_size: u64) -> (result: Result<
        Vec<Post>,
        FeedError,
    >)
        requires
            self.wf(),
        ensures
            page_size > MAX_PAGE_SIZE ==> result.is_err() && result.unwrap_err()
                == FeedError::PageSizeExceeded,
            page_size <= MAX_PAGE_SIZE ==> result.is_ok() && post_views(result.unwrap()@)
                == self@.user_timeline(user@, page, page_size),
    {
        match check_page_size(page_size) {
            Ok(()) => {},
            Err(error) => {
                return Err(error);
            },
        }
        let mut posts: Vec<Post> = Vec::new();
        match self.user_posts.get(&user) {
            Some(ids) => {
                match paged_vector(ids, page, page_size) {
                    Ok(found) => {
                        let ghost wanted = page_of(ids@, page, page_size);
                        proof {
                            assert(targets(found@).len() == found@.len());
                        }
                        let mut i: usize = 0;
                        while i < found.len()
                            invariant
                                self.wf(),
                                targets(found@) == wanted,
                                wanted.len() == found@.len(),
                                wanted == page_of(self@.user_posts[user@], page, page_size),
                                self@.user_posts.contains_key(user@),
                                i <= found@.len(),
                                posts@.len() == i,
                                forall|j: int|
                                    0 <= j < i ==> posts@[j]@ == self@.posts[wanted[j] as int],
                            decreases found@.len() - i,
                        {
                            let id: PostId = *found[i];
                            proof {
                                assert(targets(found@)[i as int] == id);
                                let ids = self@.user_posts[user@];
                                let at = ids.len() - page_skip(page, page_size) - 1 - i;
                                assert(0 <= at < ids.len());
                                assert(wanted[i as int] == ids[at]);
                                assert(id < self@.posts.len());
                            }
                            match self.ledger.get(id) {
                                Some(post) => {
                                    posts.push(post.clone());
                                },
                                None => {},
                            }
                            i = i + 1;
                        }
                        proof {
                            assert(wanted.len() == found@.len());
                            assert(post_views(posts@) =~= self@.user_timeline(
                                user@,
                                page,
                                page_size,
                            ));
                        }
                        Ok(posts)
                    },
                    Err(error) => Err(error),
                }
            },
            None => {
                proof {
                    assert(post_views(posts@) =~= self@.user_timeline(user@, page, page_size));
                }
                Ok(posts)
            },
        }
    }

    /// Records that the account of `context` follows `user`. Where it does
    /// so already, nothing changes.
    pub fn follow(&mut self, context: &Context, user: AccountId)
        requires
            old(self).wf(),
        ensures
            final(self).wf(),
            final(self)@ == old(self)@.follow(context.signer(), user@),
            final(self)@.graph.is_following(context.signer(), user@),
            final(self)@.graph.is_followed_by(user@, context.signer()),
    {
        let me = context.current_account().clone();
        self.graph.follow(me, user);
        proof {
            assert(self@ =~= old(self)@.follow(context.signer(), user@));
        }
    }

    /// Records that the account of `context` no longer follows `user`.
    /// Where it does not follow `user`, nothing changes.
    pub fn unfollow(&mut self, context: &Context, user: AccountId)
        requires
            old(self).wf(),
        ensures
            final(self).wf(),
            final(self)@ == old(self)@.unfollow(context.signer(), user@),
            !final(self)@.graph.is_following(context.signer(), user@),
            !final(self)@.graph.is_followed_by(user@, context.signer()),
    {
        self.graph.unfollow(context.current_account(), &user);
        proof {
            assert(self@ =~= old(self)@.unfollow(context.signer(), user@));
        }
    }

    /// Whether `user1` follows `user2`.
    pub fn is_follow(&self, user1: AccountId, user2: AccountId) -> (found: bool)
        requires
            self.wf(),
        ensures
            found == self@.graph.is_following(user1@, user2@),
    {
        self.graph.is_following(&user1, &user2)
    }

    /// A page of the accounts that `user` follows, the newest followed
    /// first. An account of which nothing is recorded follows nobody. A
    /// page size above 100 is refused, whoever the user is.
    pub fn followings(&self, user: AccountId, page: u64, page_size: u64) -> (result: Result<
        Vec<AccountId>,
        FeedError,
    >)
        requires
            self.wf(),
        ensures
            page_size > MAX_PAGE_SIZE ==> result.is_err() && result.unwrap_err()
                == FeedError::PageSizeExceeded,
            page_size <= MAX_PAGE_SIZE ==> result.is_ok() && account_views(result.unwrap()@)
                == self@.graph.followings_page(user@, page, page_size),
    {
        let result = paged_accounts(self.graph.followings_of(&user), page, page_size);
        proof {
            if result.is_ok() {
                assert(account_views(result.unwrap()@) =~= self@.graph.followings_page(
                    user@,
                    page,
                    page_size,
                ));
            }
        }
        result
    }

    /// A page of the followers of `user`, the newest follower first. An
    /// account of which nothing is recorded has no follower. A page size
    /// above 100 is refused, whoever the user is.
    pub fn followers(&self, user: AccountId, page: u64, page_size: u64) -> (result: Result<
        Vec<AccountId>,
        FeedError,
    >)
        requires
            self.wf(),
        ensures
            page_size > MAX_PAGE_SIZE ==> result.is_err() && result.unwrap_err()
                == FeedError::PageSizeExceeded,
            page_size <= MAX_PAGE_SIZE ==> result.is_ok() && account_views(result.unwrap()@)
                == self@.graph.followers_page(user@, page, page_size),
    {
        let result = paged_accounts(self.graph.followers_of(&user), page, page_size);
        proof {
            if result.is_ok() {
                assert(account_views(result.unwrap()@) =~= self@.graph.followers_page(
                    user@,
                    page,
                    page_size,
                ));
            }
        }
        result
    }
}

impl Default for Contract {
    fn default() -> (contract: Self)
        ensures
            contract.wf(),
            contract@ == FeedView::empty(),
    {
        Contract::new()
    }
}

} // verus!
