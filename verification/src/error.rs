use vstd::prelude::*;

verus! {

/// The two ways in which an operation of the feed can be refused.
#[derive(Clone, Copy, Debug, PartialEq, Eq, Structural)]
pub enum FeedError {
    /// The content of a post is longer than the allowed number of bytes.
    ContentTooLong,
    /// A page request asks for more items than a page may hold.
    PageSizeExceeded,
}

impl FeedError {
    /// The text that is shown to a caller whose operation was refused.
    pub fn message(&self) -> (text: &'static str)
        ensures
            *self == FeedError::ContentTooLong ==> text@ == "content too long"@,
            *self == FeedError::PageSizeExceeded ==> text@ == "page_size cannot exceed 100"@,
    {
        match self {
            FeedError::ContentTooLong => "content too long",
            FeedError::PageSizeExceeded => "page_size cannot exceed 100",
        }
    }
}

} // verus!
