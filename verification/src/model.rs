use vstd::prelude::*;
use crate::account_set::{excluding, including};
use crate::paginate::page_of;
use crate::post::{content_fits, PostId, PostView};

verus! {

/// The list that `lists` keeps for `name`: empty where it keeps none.
pub open spec fn list_of<T>(lists: Map<Seq<char>, Seq<T>>, name: Seq<char>) -> Seq<T> {
    if lists.contains_key(name) {
        lists[name]
    } else {
        Seq::empty()
    }
}

/// Every post stands at the index that is its identifier, and its content
/// is within the limit.
pub open spec fn posts_valid(posts: Seq<PostView>) -> bool {
    forall|i: int|
        0 <= i < posts.len() ==> (#[trigger] posts[i]).id == i && content_fits(posts[i].content)
}

/// The follow graph, as plain values: for each account the accounts that it
/// follows and those that follow it, each list in the order in which its
/// members came in. An account of which nothing was recorded has no list.
#[verifier::ext_equal]
pub struct GraphView {
    pub followings: Map<Seq<char>, Seq<Seq<char>>>,
    pub followers: Map<Seq<char>, Seq<Seq<char>>>,
}

impl GraphView {
    /// The graph without edges.
    pub open spec fn empty() -> GraphView {
        GraphView { followings: Map::empty(), followers: Map::empty() }
    }

    /// The accounts that `user` follows, the longest followed first.
    pub open spec fn followings_of(self, user: Seq<char>) -> Seq<Seq<char>> {
        list_of(self.followings, user)
    }

    /// The accounts that follow `user`, the oldest follower first.
    pub open spec fn followers_of(self, user: Seq<char>) -> Seq<Seq<char>> {
        list_of(self.followers, user)
    }

    /// Whether `follower` follows `followee`.
    pub open spec fn is_following(self, follower: Seq<char>, followee: Seq<char>) -> bool {
        self.followings_of(follower).contains(followee)
    }

    /// Whether `followee` has `follower` among its followers.
    pub open spec fn is_followed_by(self, followee: Seq<char>, follower: Seq<char>) -> bool {
        self.followers_of(followee).contains(follower)
    }

    /// No list names an account twice, and the two sides agree: one account
    /// follows another exactly when the second has the first among its
    /// followers.
    pub open spec fn valid(self) -> bool {
        &&& forall|user: Seq<char>| #[trigger]
            self.followings.contains_key(user) ==> self.followings[user].no_duplicates()
        &&& forall|user: Seq<char>| #[trigger]
            self.followers.contains_key(user) ==> self.followers[user].no_duplicates()
        &&& forall|a: Seq<char>, b: Seq<char>|
            #![trigger self.is_following(a, b)]
            #![trigger self.is_followed_by(b, a)]
            self.is_following(a, b) <==> self.is_followed_by(b, a)
    }

    /// The graph after `follower` has followed `followee`: each of the two
    /// is put behind the others in the list of the other side, unless it is
    /// there already.
    pub open spec fn follow(self, follower: Seq<char>, followee: Seq<char>) -> GraphView {
        GraphView {
            followings: self.followings.insert(
                follower,
                including(self.followings_of(follower), followee),
            ),
            followers: self.followers.insert(
                followee,
                including(self.followers_of(followee), follower),
            ),
        }
    }

    /// The graph after `follower` has stopped following `followee`. An
    /// account without a list gets none.
    pub open spec fn unfollow(self, follower: Seq<char>, followee: Seq<char>) -> GraphView {
        GraphView {
            followings: if self.followings.contains_key(follower) {
                self.followings.insert(follower, excluding(self.followings[follower], followee))
            } else {
                self.followings
            },
            followers: if self.followers.contains_key(followee) {
                self.followers.insert(followee, excluding(self.followers[followee], follower))
            } else {
                self.followers
            },
        }
    }

    /// A page of the accounts that `user` follows, the newest first.
    pub open spec fn followings_page(self, user: Seq<char>, page: u64, page_size: u64) -> Seq<
        Seq<char>,
    > {
        page_of(self.followings_of(user), page, page_size)
    }

    /// A page of the followers of `user`, the newest first.
    pub open spec fn followers_page(self, user: Seq<char>, page: u64, page_size: u64) -> Seq<
        Seq<char>,
    > {
        page_of(self.followers_of(user), page, page_size)
    }
}

/// The whole state of the feed, as plain values: the posts in the order of
/// their creation, for each author the identifiers of that author's posts,
/// and the follow graph.
#[verifier::ext_equal]
pub struct FeedView {
    pub posts: Seq<PostView>,
    pub user_posts: Map<Seq<char>, Seq<PostId>>,
    pub graph: GraphView,
}

impl FeedView {
    /// The state in which nothing has happened yet.
    pub open spec fn empty() -> FeedView {
        FeedView { posts: Seq::empty(), user_posts: Map::empty(), graph: GraphView::empty() }
    }

    /// The identifiers of the posts of `user`, oldest first.
    pub open spec fn posts_of(self, user: Seq<char>) -> Seq<PostId> {
        list_of(self.user_posts, user)
    }

    /// Every post stands at the index that is its identifier, and its
    /// content is within the limit.
    pub open spec fn ledger_valid(self) -> bool {
        posts_valid(self.posts)
    }

    /// The list of an author holds the identifiers of that author's posts,
    /// each once and in the order of creation, and every post is in the
    /// list of its author.
    pub open spec fn index_valid(self) -> bool {
        &&& forall|user: Seq<char>, j: int|
            self.user_posts.contains_key(user) && 0 <= j < self.user_posts[user].len() ==> {
                let id = #[trigger] self.user_posts[user][j];
                id < self.posts.len() && self.posts[id as int].user == user
            }
        &&& forall|user: Seq<char>, j: int, k: int|
            self.user_posts.contains_key(user) && 0 <= j < k < self.user_posts[user].len()
                ==> #[trigger] self.user_posts[user][j] < #[trigger] self.user_posts[user][k]
        &&& forall|i: int|
            0 <= i < self.posts.len() ==> self.posts_of((#[trigger] self.posts[i]).user).contains(
                i as PostId,
            )
    }

    /// What holds of every state that the operations can reach.
    pub open spec fn valid(self) -> bool {
        &&& self.ledger_valid()
        &&& self.index_valid()
        &&& self.graph.valid()
    }

    /// The state after `author` has published `content` at the time `now`.
    /// The new post gets the number of posts so far as its identifier.
    pub open spec fn create_post(self, content: Seq<char>, author: Seq<char>, now: u64) -> FeedView {
        let id = self.posts.len() as PostId;
        FeedView {
            posts: self.posts.push(PostView { id, content, user: author, created_at: now }),
            user_posts: self.user_posts.insert(author, self.posts_of(author).push(id)),
            ..self
        }
    }

    /// The state after `follower` has followed `followee`.
    pub open spec fn follow(self, follower: Seq<char>, followee: Seq<char>) -> FeedView {
        FeedView { graph: self.graph.follow(follower, followee), ..self }
    }

    /// The state after `follower` has stopped following `followee`.
    pub open spec fn unfollow(self, follower: Seq<char>, followee: Seq<char>) -> FeedView {
        FeedView { graph: self.graph.unfollow(follower, followee), ..self }
    }

    /// A page of all posts, newest first.
    pub open spec fn public_timeline(self, page: u64, page_size: u64) -> Seq<PostView> {
        page_of(self.posts, page, page_size)
    }

    /// A page of the posts of `user`, newest first.
    pub open spec fn user_timeline(self, user: Seq<char>, page: u64, page_size: u64) -> Seq<
        PostView,
    > {
        let ids = page_of(self.posts_of(user), page, page_size);
        Seq::new(ids.len(), |j: int| self.posts[ids[j] as int])
    }
}

} // verus!
