use vstd::prelude::*;
use crate::account_set::{excluding, including, lemma_excluding, lemma_including};
use crate::keys::{hashed_key, SK};
use crate::model::{FeedView, GraphView};
use crate::paginate::{page_len, page_of};
use crate::post::{content_fits, PostView};

verus! {

/// A request to publish a post.
pub struct PostRequest {
    pub content: Seq<char>,
    pub author: Seq<char>,
    pub now: u64,
}

/// The state after the requests were made in turn, starting from `state`:
/// a request whose content is too long is refused and changes nothing.
pub open spec fn after_requests(state: FeedView, requests: Seq<PostRequest>) -> FeedView
    decreases requests.len(),
{
    if requests.len() == 0 {
        state
    } else {
        let before = after_requests(state, requests.drop_last());
        let request = requests.last();
        if content_fits(request.content) {
            before.create_post(request.content, request.author, request.now)
        } else {
            before
        }
    }
}

/// How many of the requests are accepted.
pub open spec fn accepted(requests: Seq<PostRequest>) -> nat
    decreases requests.len(),
{
    if requests.len() == 0 {
        0
    } else if content_fits(requests.last().content) {
        accepted(requests.drop_last()) + 1
    } else {
        accepted(requests.drop_last())
    }
}

/// The state in which nothing has happened yet is valid.
pub proof fn lemma_empty_valid()
    ensures
        FeedView::empty().valid(),
{
}

/// Publishing a post keeps a state valid. The new post is the last one, and
/// its identifier is the number of posts before it.
pub proof fn lemma_create_post_valid(
    state: FeedView,
    content: Seq<char>,
    author: Seq<char>,
    now: u64,
)
    requires
        state.valid(),
        content_fits(content),
        state.posts.len() <= u64::MAX,
    ensures
        state.create_post(content, author, now).valid(),
        state.create_post(content, author, now).posts.len() == state.posts.len() + 1,
        state.create_post(content, author, now).posts.last() == (PostView {
            id: state.posts.len() as u64,
            content,
            user: author,
            created_at: now,
        }),
{
    let after = state.create_post(content, author, now);
    let id = state.posts.len() as u64;
    let list = state.posts_of(author).push(id);
    assert forall|user: Seq<char>, j: int|
        after.user_posts.contains_key(user) && 0 <= j < after.user_posts[user].len() implies {
        let id = #[trigger] after.user_posts[user][j];
        id < after.posts.len() && after.posts[id as int].user == user
    } by {
        if user == author {
            if j < state.posts_of(author).len() {
                assert(after.user_posts[user][j] == state.user_posts[user][j]);
            }
        } else {
            assert(after.user_posts[user][j] == state.user_posts[user][j]);
        }
    }
    assert forall|user: Seq<char>, j: int, k: int|
        after.user_posts.contains_key(user) && 0 <= j < k < after.user_posts[user].len() implies #[trigger] after.user_posts[user][j]
        < #[trigger] after.user_posts[user][k] by {
        if user == author {
            if k < state.posts_of(author).len() {
                assert(after.user_posts[user][j] == state.user_posts[user][j]);
                assert(after.user_posts[user][k] == state.user_posts[user][k]);
            } else {
                assert(after.user_posts[user][j] == state.user_posts[user][j]);
            }
        } else {
            assert(after.user_posts[user][j] == state.user_posts[user][j]);
            assert(after.user_posts[user][k] == state.user_posts[user][k]);
        }
    }
    assert forall|i: int| 0 <= i < after.posts.len() implies after.posts_of(
        (#[trigger] after.posts[i]).user,
    ).contains(i as u64) by {
        let user = after.posts[i].user;
        if i < state.posts.len() {
            assert(after.posts[i] == state.posts[i]);
            let old_list = state.posts_of(user);
            assert(old_list.contains(i as u64));
            let j = old_list.index_of(i as u64);
            assert(old_list[j] == i as u64);
            assert(after.posts_of(user)[j] == i as u64);
        } else {
            assert(list[list.len() - 1] == id);
        }
    }
}

/// Following keeps a state valid.
pub proof fn lemma_follow_valid(state: GraphView, follower: Seq<char>, followee: Seq<char>)
    requires
        state.valid(),
    ensures
        state.follow(follower, followee).valid(),
{
    let after = state.follow(follower, followee);
    lemma_including(state.followings_of(follower), followee);
    lemma_including(state.followers_of(followee), follower);
    assert forall|a: Seq<char>, b: Seq<char>|
        after.is_following(a, b) <==> after.is_followed_by(b, a) by {
        assert(state.is_following(a, b) <==> state.is_followed_by(b, a));
    }
}

/// Unfollowing keeps a state valid.
pub proof fn lemma_unfollow_valid(state: GraphView, follower: Seq<char>, followee: Seq<char>)
    requires
        state.valid(),
    ensures
        state.unfollow(follower, followee).valid(),
{
    let after = state.unfollow(follower, followee);
    lemma_excluding(state.followings_of(follower), followee);
    lemma_excluding(state.followers_of(followee), follower);
    assert forall|a: Seq<char>, b: Seq<char>|
        after.is_following(a, b) <==> after.is_followed_by(b, a) by {
        assert(state.is_following(a, b) <==> state.is_followed_by(b, a));
    }
}

/// Whatever requests to publish are made from the start, and however many
/// of them are refused, the posts that were accepted are numbered in the
/// order of their acceptance: the one at index `i` has the identifier `i`.
pub proof fn lemma_monotonic_ids(requests: Seq<PostRequest>)
    requires
        requests.len() <= u64::MAX,
    ensures
        after_requests(FeedView::empty(), requests).valid(),
        after_requests(FeedView::empty(), requests).posts.len() == accepted(requests),
        accepted(requests) <= requests.len(),
        forall|i: int|
            0 <= i < accepted(requests) ==> (#[trigger] after_requests(
                FeedView::empty(),
                requests,
            ).posts[i]).id == i,
    decreases requests.len(),
{
    if requests.len() > 0 {
        lemma_monotonic_ids(requests.drop_last());
        let before = after_requests(FeedView::empty(), requests.drop_last());
        let request = requests.last();
        if content_fits(request.content) {
            lemma_create_post_valid(before, request.content, request.author, request.now);
        }
    }
}

/// After one account has followed another, the first follows the second
/// and the second has the first among its followers.
pub proof fn lemma_follow_symmetry(state: GraphView, follower: Seq<char>, followee: Seq<char>)
    ensures
        state.follow(follower, followee).is_following(follower, followee),
        state.follow(follower, followee).is_followed_by(followee, follower),
{
    let followings = including(state.followings_of(follower), followee);
    let followers = including(state.followers_of(followee), follower);
    if !state.followings_of(follower).contains(followee) {
        assert(followings[followings.len() - 1] == followee);
    }
    if !state.followers_of(followee).contains(follower) {
        assert(followers[followers.len() - 1] == follower);
    }
}

/// In a valid state each side of the graph tells the other: one account
/// follows another exactly when the second has the first as a follower.
pub proof fn lemma_graph_symmetric(state: GraphView, a: Seq<char>, b: Seq<char>)
    requires
        state.valid(),
    ensures
        state.is_following(a, b) <==> state.is_followed_by(b, a),
{
}

/// Following twice is following once: the second call changes nothing, and
/// the list of the follower names the followee exactly once.
pub proof fn lemma_follow_idempotent(state: GraphView, follower: Seq<char>, followee: Seq<char>)
    requires
        state.valid(),
    ensures
        state.follow(follower, followee).follow(follower, followee) == state.follow(
            follower,
            followee,
        ),
        state.follow(follower, followee).followings_of(follower).no_duplicates(),
        state.follow(follower, followee).followings_of(follower).contains(followee),
{
    let once = state.follow(follower, followee);
    let twice = once.follow(follower, followee);
    lemma_follow_symmetry(state, follower, followee);
    lemma_follow_valid(state, follower, followee);
    assert(once.followings.contains_key(follower));
    assert(twice.followings =~= once.followings);
    assert(twice.followers =~= once.followers);
    assert(twice =~= once);
}

/// Following an account that is followed already changes nothing, not even
/// the order of a list; following a new one puts it behind the others.
pub proof fn lemma_follow_keeps_order(state: GraphView, follower: Seq<char>, followee: Seq<char>)
    requires
        state.valid(),
    ensures
        state.is_following(follower, followee) ==> state.follow(follower, followee) == state,
        !state.is_following(follower, followee) ==> state.follow(
            follower,
            followee,
        ).followings_of(follower) == state.followings_of(follower).push(followee) && state.follow(
            follower,
            followee,
        ).followers_of(followee) == state.followers_of(followee).push(follower),
{
    let after = state.follow(follower, followee);
    assert(state.is_following(follower, followee) <==> state.is_followed_by(followee, follower));
    if state.is_following(follower, followee) {
        assert(after.followings =~= state.followings);
        assert(after.followers =~= state.followers);
        assert(after =~= state);
    }
}

/// Unfollowing an account that is not followed changes nothing.
pub proof fn lemma_unfollow_absent(state: GraphView, follower: Seq<char>, followee: Seq<char>)
    requires
        state.valid(),
        !state.is_following(follower, followee),
    ensures
        state.unfollow(follower, followee) == state,
{
    let after = state.unfollow(follower, followee);
    assert(state.is_following(follower, followee) <==> state.is_followed_by(followee, follower));
    assert(after.followings =~= state.followings);
    assert(after.followers =~= state.followers);
    assert(after =~= state);
}

/// After one account has stopped following another, neither side of the
/// graph holds the edge any more.
pub proof fn lemma_unfollow_removes(state: GraphView, follower: Seq<char>, followee: Seq<char>)
    requires
        state.valid(),
    ensures
        !state.unfollow(follower, followee).is_following(follower, followee),
        !state.unfollow(follower, followee).is_followed_by(followee, follower),
{
    lemma_excluding(state.followings_of(follower), followee);
    lemma_excluding(state.followers_of(followee), follower);
}

/// Following an account that was not followed and then unfollowing it
/// leaves every list as it was: what each account follows, who follows it,
/// and so every page of either and every answer to whether one follows
/// another. A list that the follow made stays behind, empty.
pub proof fn lemma_follow_then_unfollow(state: GraphView, follower: Seq<char>, followee: Seq<char>)
    requires
        state.valid(),
        !state.is_following(follower, followee),
    ensures
        forall|user: Seq<char>| #[trigger]
            state.follow(follower, followee).unfollow(follower, followee).followings_of(user)
                == state.followings_of(user),
        forall|user: Seq<char>| #[trigger]
            state.follow(follower, followee).unfollow(follower, followee).followers_of(user)
                == state.followers_of(user),
        forall|user: Seq<char>, page: u64, page_size: u64| #[trigger]
            state.follow(follower, followee).unfollow(follower, followee).followings_page(
                user,
                page,
                page_size,
            ) == state.followings_page(user, page, page_size),
        forall|user: Seq<char>, page: u64, page_size: u64| #[trigger]
            state.follow(follower, followee).unfollow(follower, followee).followers_page(
                user,
                page,
                page_size,
            ) == state.followers_page(user, page, page_size),
        forall|a: Seq<char>, b: Seq<char>| #[trigger]
            state.follow(follower, followee).unfollow(follower, followee).is_following(a, b)
                == state.is_following(a, b),
{
    let middle = state.follow(follower, followee);
    let after = middle.unfollow(follower, followee);
    assert(state.is_following(follower, followee) <==> state.is_followed_by(followee, follower));
    let followings = state.followings_of(follower);
    let followers = state.followers_of(followee);
    lemma_pushed_then_excluded(followings, followee);
    lemma_pushed_then_excluded(followers, follower);
    assert forall|user: Seq<char>| #[trigger]
        after.followings_of(user) == state.followings_of(user) by {
        if user == follower {
            assert(middle.followings[follower] == followings.push(followee));
        }
    }
    assert forall|user: Seq<char>| #[trigger]
        after.followers_of(user) == state.followers_of(user) by {
        if user == followee {
            assert(middle.followers[followee] == followers.push(follower));
        }
    }
    assert forall|a: Seq<char>, b: Seq<char>| #[trigger]
        after.is_following(a, b) == state.is_following(a, b) by {
        assert(after.followings_of(a) == state.followings_of(a));
    }
    assert forall|user: Seq<char>, page: u64, page_size: u64| #[trigger]
        after.followings_page(user, page, page_size) == state.followings_page(
            user,
            page,
            page_size,
        ) by {
        assert(after.followings_of(user) == state.followings_of(user));
    }
    assert forall|user: Seq<char>, page: u64, page_size: u64| #[trigger]
        after.followers_page(user, page, page_size) == state.followers_page(
            user,
            page,
            page_size,
        ) by {
        assert(after.followers_of(user) == state.followers_of(user));
    }
}

/// Putting a new name behind a list and taking it out again gives the list
/// back.
proof fn lemma_pushed_then_excluded(names: Seq<Seq<char>>, name: Seq<char>)
    requires
        !names.contains(name),
    ensures
        excluding(names.push(name), name) == names,
{
    let longer = names.push(name);
    assert(longer[names.len() as int] == name);
    assert(longer.contains(name));
    let at = longer.index_of(name);
    assert(longer[at] == name);
    if at < names.len() {
        assert(names[at] == name);
        assert(names.contains(name));
    }
    assert(longer.remove(at) =~= names);
}

/// An account of which nothing is recorded has an empty timeline, follows
/// nobody and has no follower, whatever page is asked for.
pub proof fn lemma_unknown_user(state: FeedView, user: Seq<char>, page: u64, page_size: u64)
    ensures
        !state.user_posts.contains_key(user) ==> state.user_timeline(user, page, page_size)
            == Seq::<PostView>::empty(),
        !state.graph.followings.contains_key(user) ==> state.graph.followings_page(
            user,
            page,
            page_size,
        ) == Seq::<Seq<char>>::empty(),
        !state.graph.followers.contains_key(user) ==> state.graph.followers_page(
            user,
            page,
            page_size,
        ) == Seq::<Seq<char>>::empty(),
{
    if !state.user_posts.contains_key(user) {
        assert(state.user_timeline(user, page, page_size) =~= Seq::<PostView>::empty());
    }
    if !state.graph.followings.contains_key(user) {
        assert(state.graph.followings_page(user, page, page_size) =~= Seq::<Seq<char>>::empty());
    }
    if !state.graph.followers.contains_key(user) {
        assert(state.graph.followers_page(user, page, page_size) =~= Seq::<Seq<char>>::empty());
    }
}

/// The page numbers 0 and 1 name the same page.
pub proof fn lemma_page_zero_is_first<T>(items: Seq<T>, page_size: u64)
    ensures
        page_of(items, 0, page_size) == page_of(items, 1, page_size),
{
    assert(page_of(items, 0, page_size) =~= page_of(items, 1, page_size));
}

/// A page never holds more items than were asked for, nor more than there
/// are, and a page that begins beyond the data is empty.
pub proof fn lemma_page_bounds<T>(items: Seq<T>, page: u64, page_size: u64)
    ensures
        page_of(items, page, page_size).len() == page_len(items.len(), page, page_size),
        page_of(items, page, page_size).len() <= page_size,
        page_of(items, page, page_size).len() <= items.len(),
        page >= 1 && (page - 1) * page_size >= items.len() ==> page_of(items, page, page_size).len()
            == 0,
{
}

/// The pages of one size follow each other through the sequence from its
/// newest item to its oldest: the item at place `j` of page `page` is the
/// one that `(page - 1) * page_size + j` items are newer than.
pub proof fn lemma_page_item<T>(items: Seq<T>, page: u64, page_size: u64, j: int)
    requires
        page >= 1,
        0 <= j < page_of(items, page, page_size).len(),
    ensures
        (page - 1) * page_size + j < items.len(),
        page_of(items, page, page_size)[j] == items[items.len() - 1 - ((page - 1) * page_size
            + j)],
{
}

/// Two names of collections with the same storage key are of the same kind
/// and hold the same hash: no two collections share a key.
pub proof fn lemma_key_injective(a: SK, b: SK)
    requires
        a.encodable(),
        b.encodable(),
        a.key() == b.key(),
    ensures
        a.tag() == b.tag(),
        a.hash() == b.hash(),
{
    assert(a.key()[0] == a.tag());
    assert(b.key()[0] == b.tag());
    match (a.hash(), b.hash()) {
        (Some(g), Some(h)) => {
            assert(a.key().len() == 5 + g.len());
            assert(b.key().len() == 5 + h.len());
            assert forall|i: int| 0 <= i < g.len() implies g[i] == h[i] by {
                assert(a.key()[5 + i] == g[i]);
                assert(b.key()[5 + i] == h[i]);
            }
            assert(g =~= h);
        },
        (Some(g), None) => {
            assert(a.key().len() == 5 + g.len());
        },
        (None, Some(h)) => {
            assert(b.key().len() == 5 + h.len());
        },
        (None, None) => {},
    }
}

/// The key that a kind and a hash give is five bytes longer than the hash,
/// and it tells both: the collections of two accounts share a key only if
/// they are of the same kind and the names of the accounts have the same
/// hash.
pub proof fn lemma_hashed_keys(tag: u8, hash: Seq<u8>, other_tag: u8, other: Seq<u8>)
    ensures
        hashed_key(tag, hash).len() == 5 + hash.len(),
        hashed_key(tag, hash) == hashed_key(other_tag, other) ==> tag == other_tag && hash
            == other,
{
    if hashed_key(tag, hash) == hashed_key(other_tag, other) {
        assert(hashed_key(tag, hash)[0] == tag);
        assert(hashed_key(other_tag, other)[0] == other_tag);
        assert(hashed_key(other_tag, other).len() == 5 + other.len());
        assert forall|i: int| 0 <= i < hash.len() implies hash[i] == other[i] by {
            assert(hashed_key(tag, hash)[5 + i] == hash[i]);
            assert(hashed_key(other_tag, other)[5 + i] == other[i]);
        }
        assert(hash =~= other);
    }
}

} // verus!
