use vstd::prelude::*;
use crate::account::AccountId;
use crate::error::FeedError;
use crate::keys::SK;
use crate::model::posts_valid;
use crate::post::{content_fits, post_views, Post, PostId, PostView};
use crate::sequence::Sequence;

verus! {

/// All posts, in the order of their creation. A post is never changed or
/// taken out, and its identifier is its index.
pub struct Ledger {
    posts: Sequence<Post>,
}

impl View for Ledger {
    type V = Seq<PostView>;

    /// What the posts say, oldest first.
    closed spec fn view(&self) -> Seq<PostView> {
        post_views(self.posts@)
    }
}

impl Ledger {
    /// The storage key under which the posts are kept.
    pub closed spec fn prefix(&self) -> Seq<u8> {
        self.posts.prefix()
    }

    /// The posts are numbered by their index and within the limit on their
    /// content, and they are kept under the key of the posts.
    pub open spec fn wf(&self) -> bool {
        &&& posts_valid(self@)
        &&& self.prefix() == SK::Posts.key()
    }

    /// A ledger without posts.
    pub fn new() -> (ledger: Self)
        ensures
            ledger.wf(),
            ledger@ == Seq::<PostView>::empty(),
    {
        let ledger = Ledger { posts: Sequence::new(SK::Posts.into_storage_key()) };
        proof {
            assert(ledger@ =~= Seq::<PostView>::empty());
        }
        ledger
    }

    /// The number of posts.
    pub fn len(&self) -> (count: u64)
        ensures
            count == self@.len(),
    {
        self.posts.len()
    }

    /// Appends a post of `author` with the given content and time of
    /// creation, and returns it. Its identifier is the number of posts
    /// before it. Content that is too long is refused, and nothing changes.
    pub fn create(&mut self, content: String, author: AccountId, timestamp: u64) -> (result:
        Result<Post, FeedError>)
        requires
            old(self).wf(),
        ensures
            final(self).wf(),
            content_fits(content@) ==> result.is_ok() && result.unwrap()@ == (PostView {
                id: old(self)@.len() as PostId,
                content: content@,
                user: author@,
                created_at: timestamp,
            }) && final(self)@ == old(self)@.push(result.unwrap()@),
            !content_fits(content@) ==> result.is_err() && result.unwrap_err()
                == FeedError::ContentTooLong && final(self)@ == old(self)@,
    {
        let id: PostId = self.posts.len();
        match Post::new(id, content, author, timestamp) {
            Ok(post) => {
                let copy = post.clone();
                self.posts.push(post);
                proof {
                    assert(self@ =~= old(self)@.push(copy@));
                }
                Ok(copy)
            },
            Err(error) => Err(error),
        }
    }

    /// The post with the identifier `id`, if there is one.
    pub fn get(&self, id: PostId) -> (post: Option<&Post>)
        ensures
            id < self@.len() ==> post.is_some() && post.unwrap()@ == self@[id as int],
            id >= self@.len() ==> post.is_none(),
    {
        self.posts.get(id)
    }

    /// The posts as a sequence, oldest first.
    pub fn posts(&self) -> (posts: &Sequence<Post>)
        ensures
            post_views(posts@) == self@,
            posts.prefix() == self.prefix(),
    {
        &self.posts
    }
}

} // verus!
