use vstd::prelude::*;
use crate::account::AccountId;

verus! {

/// The SHA-256 digest of a sequence of bytes.
pub uninterp spec fn sha256_digest(bytes: Seq<u8>) -> Seq<u8>;

/// The number of bytes of a SHA-256 digest.
pub const HASH_LEN: usize = 32;

/// Calls `near_sdk::env::sha256`. The result is the SHA-256 digest of
/// `bytes`, which depends on the bytes alone and is 32 bytes long. The
/// digest itself is not computed by verified code.
#[verifier::external_body]
fn sha256(bytes: &[u8]) -> (digest: Vec<u8>)
    ensures
        digest@ == sha256_digest(bytes@),
        digest@.len() == HASH_LEN,
{
    near_sdk::env::sha256(bytes)
}

/// The hash under which the collections of `account` are kept.
pub fn account_hash(account: &AccountId) -> (hash: Vec<u8>)
    ensures
        hash@ == sha256_digest(account.bytes()),
        hash@.len() == HASH_LEN,
{
    sha256(account.as_bytes())
}

/// The four bytes of `n`, lowest first.
pub open spec fn le_bytes(n: u32) -> Seq<u8> {
    seq![
        (n % 256) as u8,
        ((n / 256) % 256) as u8,
        ((n / 65536) % 256) as u8,
        (n / 16777216) as u8,
    ]
}

/// The storage key that a kind of collection and the hash of an account
/// give: the tag of the kind, the length of a hash in four bytes, and the
/// hash.
pub open spec fn hashed_key(tag: u8, hash: Seq<u8>) -> Seq<u8> {
    seq![tag] + le_bytes(HASH_LEN as u32) + hash
}

/// The storage key of the collection that belongs to the account `name`,
/// among the collections that `tag` stands for: the key that the tag and
/// the hash of the bytes of the name give.
pub open spec fn account_key(tag: u8, name: Seq<char>) -> Seq<u8> {
    hashed_key(tag, sha256_digest(vstd::utf8::encode_utf8(name)))
}

/// The names of the stored collections. The three that belong to one account
/// hold the hash of that account's name.
#[derive(Debug)]
pub enum SK {
    /// All posts.
    Posts,
    /// The map from an author to the list of that author's posts.
    UserPosts,
    /// The list of the posts of one author.
    UserPost { account_hash: Vec<u8> },
    /// The map from an account to the set of accounts that it follows.
    Followings,
    /// The set of accounts that one account follows.
    FollowingUser { account_hash: Vec<u8> },
    /// The map from an account to the set of its followers.
    Followers,
    /// The set of the followers of one account.
    FollowerUser { account_hash: Vec<u8> },
}

impl SK {
    /// The byte that tells the kinds of collection apart.
    pub open spec fn tag(&self) -> u8 {
        match self {
            SK::Posts => 0,
            SK::UserPosts => 1,
            SK::UserPost { .. } => 2,
            SK::Followings => 3,
            SK::FollowingUser { .. } => 4,
            SK::Followers => 5,
            SK::FollowerUser { .. } => 6,
        }
    }

    /// The account hash that the name holds, if it belongs to one account.
    pub open spec fn hash(&self) -> Option<Seq<u8>> {
        match self {
            SK::UserPost { account_hash } => Some(account_hash@),
            SK::FollowingUser { account_hash } => Some(account_hash@),
            SK::FollowerUser { account_hash } => Some(account_hash@),
            _ => None,
        }
    }

    /// Whether the name can be written as a key: the length of its hash
    /// must fit in four bytes.
    pub open spec fn encodable(&self) -> bool {
        match self.hash() {
            Some(h) => h.len() <= u32::MAX,
            None => true,
        }
    }

    /// The storage key of the name: the tag, then, for the collection of one
    /// account, the length of the hash in four bytes and the hash.
    pub open spec fn key(&self) -> Seq<u8> {
        match self.hash() {
            Some(h) => seq![self.tag()] + le_bytes(h.len() as u32) + h,
            None => seq![self.tag()],
        }
    }

    /// The name of the post list of `account`.
    pub fn user_post(account: &AccountId) -> (name: SK)
        ensures
            name.tag() == 2,
            name.hash() == Some(sha256_digest(account.bytes())),
            name.encodable(),
            name.key().len() == 5 + HASH_LEN,
            name.key() == account_key(2, account@),
    {
        SK::UserPost { account_hash: account_hash(account) }
    }

    /// The name of the set of accounts that `account` follows.
    pub fn following_user(account: &AccountId) -> (name: SK)
        ensures
            name.tag() == 4,
            name.hash() == Some(sha256_digest(account.bytes())),
            name.encodable(),
            name.key().len() == 5 + HASH_LEN,
            name.key() == account_key(4, account@),
    {
        SK::FollowingUser { account_hash: account_hash(account) }
    }

    /// The name of the set of followers of `account`.
    pub fn follower_user(account: &AccountId) -> (name: SK)
        ensures
            name.tag() == 6,
            name.hash() == Some(sha256_digest(account.bytes())),
            name.encodable(),
            name.key().len() == 5 + HASH_LEN,
            name.key() == account_key(6, account@),
    {
        SK::FollowerUser { account_hash: account_hash(account) }
    }

    /// Writes the name as a storage key.
    pub fn into_storage_key(self) -> (key: Vec<u8>)
        requires
            self.encodable(),
        ensures
            key@ == self.key(),
    {
        match self {
            SK::Posts => vec![0u8],
            SK::UserPosts => vec![1u8],
            SK::UserPost { account_hash } => tagged_key(2, account_hash),
            SK::Followings => vec![3u8],
            SK::FollowingUser { account_hash } => tagged_key(4, account_hash),
            SK::Followers => vec![5u8],
            SK::FollowerUser { account_hash } => tagged_key(6, account_hash),
        }
    }
}

/// The key of a collection of one account: the tag, the length of the hash
/// in four bytes, lowest first, and the hash.
fn tagged_key(tag: u8, hash: Vec<u8>) -> (key: Vec<u8>)
    requires
        hash@.len() <= u32::MAX,
    ensures
        key@ == seq![tag] + le_bytes(hash@.len() as u32) + hash@,
{
    let count: usize = hash.len();
    let mut key: Vec<u8> = Vec::new();
    key.push(tag);
    key.push((count % 256) as u8);
    key.push(((count / 256) % 256) as u8);
    key.push(((count / 65536) % 256) as u8);
    key.push(((count / 16777216) % 256) as u8);
    let ghost bytes = hash@;
    let mut hash = hash;
    key.append(&mut hash);
    proof {
        assert(key@ =~= seq![tag] + le_bytes(count as u32) + bytes);
    }
    key
}

} // verus!
