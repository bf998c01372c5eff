//! Searching transactions.
use vstd::prelude::*;
use crate::entities::pagination::PaginatedResult;
use crate::entities::search::TransactionSearchFilter;
use crate::entities::transaction::Transaction;
use crate::errors::{DomainError, validation};
use crate::queries::page_of;
use crate::repositories::transaction_repository::{InMemoryTransactionRepository, search_results};

verus! {

/// Message of the error for an amount range that ends before it starts.
pub open spec fn amount_order_message() -> Seq<char> {
    "min_amount must be <= max_amount"@
}

/// Message of the error for a date range that ends before it starts.
pub open spec fn search_date_order_message() -> Seq<char> {
    "date_from must be <= date_to"@
}

/// Transaction searches.
pub struct SearchUseCases<'a> {
    pub transaction_repo: &'a InMemoryTransactionRepository,
}

impl<'a> SearchUseCases<'a> {
    /// Searches over the transactions of `transaction_repo`.
    pub fn new(transaction_repo: &'a InMemoryTransactionRepository) -> (r: SearchUseCases<'a>)
        ensures
            r.transaction_repo == transaction_repo,
    {
        SearchUseCases { transaction_repo }
    }

    /// One page (50 results unless `limit` is set, from `offset` or the start) of the
    /// transactions meeting every criterion of `filter`, latest date first. Fails when the
    /// amount range or the date range ends before it starts.
    pub fn search_transactions(&self, filter: &TransactionSearchFilter) -> (r: Result<PaginatedResult<Transaction>, DomainError>)
        ensures
            (filter.min_amount matches Some(lo) && filter.max_amount matches Some(hi) && lo > hi) ==> (r matches Err(e)
                && e is Validation && e.message() == amount_order_message()),
            !(filter.min_amount matches Some(lo) && filter.max_amount matches Some(hi) && lo > hi)
                && (filter.date_from matches Some(a) && filter.date_to matches Some(b) && a.unix() > b.unix()) ==> (r matches Err(e)
                && e is Validation && e.message() == search_date_order_message()),
            r matches Ok(p) ==> {
                let all = search_results(self.transaction_repo@, *filter);
                let limit = match filter.limit { Some(l) => l as int, None => 50 };
                let offset = match filter.offset { Some(o) => o as int, None => 0 };
                &&& !(filter.min_amount matches Some(lo) && filter.max_amount matches Some(hi) && lo > hi)
                &&& !(filter.date_from matches Some(a) && filter.date_to matches Some(b) && a.unix() > b.unix())
                &&& p.items@ == page_of(all, offset, limit)
                &&& p.total_count == all.len()
                &&& p.has_more == (offset + p.items@.len() < all.len())
            },
            !(filter.min_amount matches Some(lo) && filter.max_amount matches Some(hi) && lo > hi)
                && !(filter.date_from matches Some(a) && filter.date_to matches Some(b) && a.unix() > b.unix()) ==> r is Ok,
    {
        if let (Some(min), Some(max)) = (filter.min_amount, filter.max_amount) {
            if min > max {
                return Err(validation("min_amount must be <= max_amount"));
            }
        }
        if let (Some(from), Some(to)) = (filter.date_from, filter.date_to) {
            if from.is_after(&to) {
                return Err(validation("date_from must be <= date_to"));
            }
        }
        self.transaction_repo.search(filter)
    }
}

} // verus!
