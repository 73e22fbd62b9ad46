use vstd::prelude::*;
use crate::account::AccountId;
use crate::error::FeedError;

verus! {

/// The identifier of a post: its index in the ledger.
pub type PostId = u64;

/// The largest number of bytes that the content of a post may have.
pub const MAX_CONTENT_LEN: usize = 300;

/// Whether a text is short enough to be the content of a post: its UTF-8
/// form has at most `MAX_CONTENT_LEN` bytes.
pub open spec fn content_fits(content: Seq<char>) -> bool {
    vstd::utf8::encode_utf8(content).len() <= MAX_CONTENT_LEN
}

/// What a post says, as plain values.
pub struct PostView {
    pub id: PostId,
    pub content: Seq<char>,
    pub user: Seq<char>,
    pub created_at: u64,
}

/// A short text that an account published. A post never changes.
#[derive(Debug)]
pub struct Post {
    id: PostId,
    content: String,
    user: AccountId,
    created_at: u64,
}

impl View for Post {
    type V = PostView;

    closed spec fn view(&self) -> PostView {
        PostView {
            id: self.id,
            content: self.content@,
            user: self.user@,
            created_at: self.created_at,
        }
    }
}

impl Post {
    /// A post of `user` with the given identifier, content and time of
    /// creation in nanoseconds. Content of more than `MAX_CONTENT_LEN` bytes
    /// is refused.
    pub fn new(id: PostId, content: String, user: AccountId, created_at: u64) -> (result: Result<
        Post,
        FeedError,
    >)
        ensures
            content_fits(content@) ==> result.is_ok() && result.unwrap()@ == (PostView {
                id,
                content: content@,
                user: user@,
                created_at,
            }),
            !content_fits(content@) ==> result.is_err() && result.unwrap_err()
                == FeedError::ContentTooLong,
    {
        if content.as_str().as_bytes().len() > MAX_CONTENT_LEN {
            return Err(FeedError::ContentTooLong);
        }
        Ok(Post { id, content, user, created_at })
    }

    /// The identifier of the post.
    pub fn id(&self) -> (id: PostId)
        ensures
            id == self@.id,
    {
        self.id
    }

    /// The text of the post.
    pub fn content(&self) -> (content: &str)
        ensures
            content@ == self@.content,
    {
        self.content.as_str()
    }

    /// The author of the post.
    pub fn user(&self) -> (user: &AccountId)
        ensures
            user@ == self@.user,
    {
        &self.user
    }

    /// The time at which the post was created, in nanoseconds.
    pub fn created_at(&self) -> (time: u64)
        ensures
            time == self@.created_at,
    {
        self.created_at
    }
}

impl Clone for Post {
    fn clone(&self) -> (copy: Self)
        ensures
            copy == *self,
            copy@ == self@,
    {
        Post {
            id: self.id,
            content: self.content.clone(),
            user: self.user.clone(),
            created_at: self.created_at,
        }
    }
}

/// What a list of posts says.
pub open spec fn post_views(posts: Seq<Post>) -> Seq<PostView> {
    Seq::new(posts.len(), |i: int| posts[i]@)
}

} // verus!
