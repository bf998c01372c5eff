//! Criteria for searching transactions.
use vstd::prelude::*;
use crate::entities::common::TransactionType;
use crate::ids::EntityId;
use crate::time::Timestamp;

verus! {

/// What a transaction search looks for. Every criterion that is set must hold.
#[derive(Debug, Clone)]
pub struct TransactionSearchFilter {
    /// Account to search within.
    pub account_id: EntityId,
    /// Text the description must contain (ignoring ASCII letter case).
    pub query: Option<String>,
    /// Category the transaction must have.
    pub category_id: Option<EntityId>,
    /// Type the transaction must have.
    pub transaction_type: Option<TransactionType>,
    /// Smallest amount in cents (inclusive).
    pub min_amount: Option<i64>,
    /// Largest amount in cents (inclusive).
    pub max_amount: Option<i64>,
    /// Earliest date (inclusive).
    pub date_from: Option<Timestamp>,
    /// Latest date (inclusive).
    pub date_to: Option<Timestamp>,
    /// Maximum number of results (50 when absent).
    pub limit: Option<usize>,
    /// Number of results to skip (0 when absent).
    pub offset: Option<usize>,
}

impl Default for TransactionSearchFilter {
    fn default() -> (r: TransactionSearchFilter)
        ensures
            r.account_id == 0,
            r.query is None,
            r.category_id is None,
            r.transaction_type is None,
            r.min_amount is None,
            r.max_amount is None,
            r.date_from is None,
            r.date_to is None,
            r.limit is None,
            r.offset is None,
    {
        TransactionSearchFilter {
            account_id: 0,
            query: None,
            category_id: None,
            transaction_type: None,
            min_amount: None,
            max_amount: None,
            date_from: None,
            date_to: None,
            limit: None,
            offset: None,
        }
    }
}

} // verus!
