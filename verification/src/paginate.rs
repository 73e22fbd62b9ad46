use vstd::prelude::*;
use crate::error::FeedError;
use crate::sequence::Sequence;

verus! {

/// The largest number of items that one page may hold.
pub const MAX_PAGE_SIZE: u64 = 100;

/// How many of the newest items come before the page: none for the pages 0
/// and 1, which both name the first page, and `page_size` more for each
/// page after the first.
pub open spec fn page_skip(page: u64, page_size: u64) -> int {
    if page == 0 {
        0
    } else {
        (page - 1) * page_size
    }
}

/// How many items the page holds, of a sequence of `total` items.
pub open spec fn page_len(total: nat, page: u64, page_size: u64) -> nat {
    let skip = page_skip(page, page_size);
    if skip >= total {
        0
    } else if total - skip < page_size {
        (total - skip) as nat
    } else {
        page_size as nat
    }
}

/// The page itself: the items from the newest that was not skipped
/// downwards, the most recently appended first.
pub open spec fn page_of<T>(items: Seq<T>, page: u64, page_size: u64) -> Seq<T> {
    Seq::new(
        page_len(items.len(), page, page_size),
        |j: int| items[items.len() - page_skip(page, page_size) - 1 - j],
    )
}

/// What a sequence of borrowed items refers to.
pub open spec fn targets<T>(refs: Seq<&T>) -> Seq<T> {
    Seq::new(refs.len(), |j: int| *refs[j])
}

/// Refuses a page size above `MAX_PAGE_SIZE`. Every page request is held to
/// this bound, whatever it is asked of.
pub fn check_page_size(page_size: u64) -> (result: Result<(), FeedError>)
    ensures
        page_size > MAX_PAGE_SIZE ==> result.is_err() && result.unwrap_err()
            == FeedError::PageSizeExceeded,
        page_size <= MAX_PAGE_SIZE ==> result.is_ok(),
{
    if page_size > MAX_PAGE_SIZE {
        Err(FeedError::PageSizeExceeded)
    } else {
        Ok(())
    }
}

/// The requested page of `items`, newest first. A page size above
/// `MAX_PAGE_SIZE` is refused; a page beyond the data is empty.
pub fn paged_vector<'a, T>(items: &'a Sequence<T>, page: u64, page_size: u64) -> (result: Result<
    Vec<&'a T>,
    FeedError,
>)
    ensures
        page_size > MAX_PAGE_SIZE ==> result == Err::<Vec<&T>, FeedError>(
            FeedError::PageSizeExceeded,
        ),
        page_size <= MAX_PAGE_SIZE ==> result.is_ok() && targets(result.unwrap()@) == page_of(
            items@,
            page,
            page_size,
        ),
{
    match check_page_size(page_size) {
        Ok(()) => {},
        Err(error) => {
            return Err(error);
        },
    }
    let mut result: Vec<&'a T> = Vec::new();
    let total: u64 = items.len();
    let before: u64 = if page == 0 {
        0
    } else {
        page - 1
    };
    let skipped: u64 = match before.checked_mul(page_size) {
        Some(s) => s,
        None => {
            proof {
                assert(before * page_size > u64::MAX);
                assert(targets(result@) =~= page_of(items@, page, page_size));
            }
            return Ok(result);
        },
    };
    if skipped >= total {
        proof {
            assert(targets(result@) =~= page_of(items@, page, page_size));
        }
        return Ok(result);
    }
    let start: u64 = total - skipped - 1;
    let mut taken: u64 = 0;
    while taken < page_size && taken <= start
        invariant
            page_size <= MAX_PAGE_SIZE,
            total == items@.len(),
            skipped == page_skip(page, page_size),
            skipped < total,
            start == total - skipped - 1,
            taken <= page_size,
            taken <= start + 1,
            result@.len() == taken,
            forall|j: int| 0 <= j < taken ==> *result@[j] == items@[start - j],
        decreases page_size - taken,
    {
        match items.get(start - taken) {
            Some(item) => {
                result.push(item);
            },
            None => {},
        }
        taken = taken + 1;
    }
    proof {
        assert(targets(result@) =~= page_of(items@, page, page_size));
    }
    Ok(result)
}

} // verus!
