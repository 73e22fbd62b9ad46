//! The data and query core of a small social feed: an append-only ledger of
//! short posts, a per-author index into it, a symmetric follow graph, and
//! descending pagination over any of the stored sequences.

pub mod account;
pub mod account_map;
pub mod account_set;
pub mod contract;
pub mod error;
pub mod graph;
pub mod keys;
pub mod laws;
pub mod ledger;
pub mod model;
pub mod paginate;
pub mod post;
pub mod sequence;
pub mod user_posts;

pub use crate::account::AccountId;
pub use crate::account::Context;
pub use crate::contract::Contract;
pub use crate::error::FeedError;
pub use crate::keys::SK;
pub use crate::paginate::paged_vector;
pub use crate::post::Post;
pub use crate::sequence::Sequence;
