//! Pages of results.
use vstd::prelude::*;

verus! {

/// Which page of results to return.
#[derive(Debug, Clone, Copy, PartialEq, Eq, Structural)]
pub struct PageRequest {
    /// Maximum number of results to return.
    pub limit: usize,
    /// Number of results to skip.
    pub offset: usize,
}

/// Page size used when a caller asks for no positive limit.
pub const DEFAULT_PAGE_LIMIT: usize = 50;

impl PageRequest {
    /// The page asked for by signed `limit` and `offset`: a limit that is not positive
    /// means the default page size, and a negative offset means the first item.
    pub fn from_limit_offset(limit: i64, offset: i64) -> (r: PageRequest)
        ensures
            r.limit == (if limit > 0 { limit as usize } else { DEFAULT_PAGE_LIMIT }),
            r.offset == (if offset >= 0 { offset as usize } else { 0usize }),
    {
        PageRequest {
            limit: if limit > 0 { limit as usize } else { DEFAULT_PAGE_LIMIT },
            offset: if offset >= 0 { offset as usize } else { 0 },
        }
    }
}

/// One page of results.
#[derive(Debug, Clone)]
pub struct PaginatedResult<T> {
    /// The items on this page.
    pub items: Vec<T>,
    /// Number of matching items across all pages.
    pub total_count: usize,
    /// Whether matching items remain after this page.
    pub has_more: bool,
}

impl<T> PaginatedResult<T> {
    /// Wraps one page of items: more remain when the items skipped and shown number
    /// fewer than the total.
    pub fn from_vec(items: Vec<T>, total_count: usize, page: &PageRequest) -> (r: PaginatedResult<T>)
        ensures
            r.items@ == items@,
            r.total_count == total_count,
            r.has_more == (page.offset + items@.len() < total_count),
    {
        let n = items.len();
        let has_more = n < total_count && page.offset < total_count - n;
        PaginatedResult { items, total_count, has_more }
    }
}

} // verus!
