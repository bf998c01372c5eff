//! Stored transactions and the queries over them.
use vstd::prelude::*;
use crate::entities::common::{BaseEntity, SyncStatus, TransactionType};
use crate::entities::pagination::{PageRequest, PaginatedResult};
use crate::entities::search::TransactionSearchFilter;
use crate::entities::transaction::Transaction;
use crate::errors::{DomainError, StorageError, query_error_text};
use crate::ids::EntityId;
use crate::queries::{Order, copy_page, count_by, lemma_sum_bound, lemma_sum_zero, sum_by, insert_in_order, lemma_prefix_step, lemma_stable_sort_push, page_of, relation, stable_sort};
use crate::records::{Record, Table, has_key, lemma_lookup, lookup, unique_keys};
use crate::text::{containing_pattern, like_containing, like_match};
use crate::time::Timestamp;

verus! {

impl Record for Transaction {
    open spec fn key(&self) -> EntityId {
        self.base.id
    }

    fn record_id(&self) -> (r: EntityId) {
        self.base.id
    }

    fn copy_record(&self) -> (r: Transaction) {
        self.duplicate()
    }
}

/// Transactions listed latest date first.
pub struct LaterDateFirst;

impl Order<Transaction> for LaterDateFirst {
    open spec fn before(a: Transaction, b: Transaction) -> bool {
        a.date.unix() > b.date.unix()
    }

    fn precedes(a: &Transaction, b: &Transaction) -> (r: bool) {
        a.date.is_after(&b.date)
    }
}

/// Latest date first, as a relation.
pub open spec fn by_date_desc() -> spec_fn(Transaction, Transaction) -> bool {
    relation::<Transaction, LaterDateFirst>()
}

/// Whether transaction `t` meets every criterion that `f` sets: it belongs to the
/// account, is not deleted, and satisfies the optional text, category, type, amount and
/// date criteria (amounts and dates inclusive; the description matches `%query%` as SQL
/// `LIKE` matches it).
pub open spec fn matches_search(t: Transaction, f: TransactionSearchFilter) -> bool {
    &&& t.account_id == f.account_id
    &&& !t.deleted()
    &&& (f.query matches Some(q) ==> like_match(containing_pattern(q@), t.description@))
    &&& (f.category_id matches Some(c) ==> t.category_id == c)
    &&& (f.transaction_type matches Some(k) ==> t.transaction_type == k)
    &&& (f.min_amount matches Some(m) ==> t.amount >= m)
    &&& (f.max_amount matches Some(m) ==> t.amount <= m)
    &&& (f.date_from matches Some(d) ==> t.date.unix() >= d.unix())
    &&& (f.date_to matches Some(d) ==> t.date.unix() <= d.unix())
}

/// The criteria of `f`, as a predicate.
pub open spec fn selects(f: TransactionSearchFilter) -> spec_fn(Transaction) -> bool {
    |t: Transaction| matches_search(t, f)
}

/// The stored transactions that meet `f`, latest date first.
pub open spec fn search_results(rows: Seq<Transaction>, f: TransactionSearchFilter) -> Seq<Transaction> {
    stable_sort(rows.filter(selects(f)), by_date_desc())
}

/// Criteria selecting the live transactions of an account.
pub open spec fn account_criteria(account_id: EntityId) -> TransactionSearchFilter {
    TransactionSearchFilter {
        account_id,
        query: None,
        category_id: None,
        transaction_type: None,
        min_amount: None,
        max_amount: None,
        date_from: None,
        date_to: None,
        limit: None,
        offset: None,
    }
}

/// Criteria selecting the live transactions of an account dated within `[from, to]`.
pub open spec fn range_criteria(account_id: EntityId, from: Timestamp, to: Timestamp) -> TransactionSearchFilter {
    TransactionSearchFilter { date_from: Some(from), date_to: Some(to), ..account_criteria(account_id) }
}

/// A stored transaction after an update with `t`: every field comes from `t` except the
/// identifier and the creation time.
pub open spec fn updated_row(stored: Transaction, t: Transaction) -> Transaction {
    Transaction { base: BaseEntity { id: stored.base.id, created_at: stored.base.created_at, ..t.base }, ..t }
}

/// The stored transactions after an update with `t`.
pub open spec fn rows_after_update(rows: Seq<Transaction>, t: Transaction) -> Seq<Transaction> {
    rows.map_values(|r: Transaction| if r.key() == t.key() { updated_row(r, t) } else { r })
}

/// The stored transactions after soft-deleting `id` at instant `now`: it is marked
/// deleted and updated at `now` and awaits synchronization.
pub open spec fn rows_after_delete(rows: Seq<Transaction>, id: EntityId, now: Timestamp) -> Seq<Transaction> {
    rows.map_values(|r: Transaction| if r.key() == id {
        Transaction {
            base: BaseEntity { deleted_at: Some(now), updated_at: now, ..r.base },
            sync_status: SyncStatus::Pending,
            ..r
        }
    } else {
        r
    })
}

/// Whether a transaction awaits synchronization.
pub open spec fn pending(t: Transaction) -> bool {
    t.sync_status == SyncStatus::Pending
}

/// Message of the error for a transaction whose identifier is already stored.
pub open spec fn duplicate_transaction_message() -> Seq<char> {
    query_error_text("UNIQUE constraint failed: transactions.id"@)
}

/// Stored transactions, in insertion order, identifiers unique.
pub struct InMemoryTransactionRepository {
    table: Table<Transaction>,
}

impl View for InMemoryTransactionRepository {
    type V = Seq<Transaction>;

    closed spec fn view(&self) -> Seq<Transaction> {
        self.table@
    }
}

impl InMemoryTransactionRepository {
    /// Whether the stored transactions have unique identifiers.
    pub open spec fn wf(&self) -> bool {
        unique_keys(self@)
    }

    /// The stored records, in storage order (deleted ones included).
    pub fn records(&self) -> (r: &Vec<Transaction>)
        ensures
            r@ == self@,
    {
        self.table.records()
    }

    /// An empty repository.
    pub fn new() -> (r: InMemoryTransactionRepository)
        ensures
            r@ == Seq::<Transaction>::empty(),
            r.wf(),
    {
        InMemoryTransactionRepository { table: Table::new() }
    }

    /// Stores a new transaction; fails when one with the same identifier is stored.
    pub fn save(&mut self, transaction: &Transaction) -> (r: Result<(), DomainError>)
        requires
            old(self).wf(),
        ensures
            final(self).wf(),
            r is Ok <==> !has_key(old(self)@, transaction.key()),
            r is Ok ==> final(self)@ == old(self)@.push(*transaction),
            r matches Err(e) ==> final(self)@ == old(self)@ && e is Storage
                && e.message() == duplicate_transaction_message(),
    {
        if self.table.insert(transaction.duplicate()) {
            Ok(())
        } else {
            Err(StorageError::Query("UNIQUE constraint failed: transactions.id".to_string()).into_domain())
        }
    }

    /// The stored transaction with identifier `id`, deleted or not.
    pub fn find_by_id(&self, id: EntityId) -> (r: Result<Option<Transaction>, DomainError>)
        requires
            self.wf(),
        ensures
            r == Ok::<Option<Transaction>, DomainError>(lookup(self@, id)),
    {
        proof {
            lemma_lookup(self@, id);
        }
        match self.table.position_of(id) {
            Some(i) => Ok(Some(self.table.get(i).duplicate())),
            None => Ok(None),
        }
    }

    /// Whether `t` meets every criterion of `f`.
    pub fn matches(t: &Transaction, f: &TransactionSearchFilter) -> (r: bool)
        ensures
            r == matches_search(*t, *f),
    {
        if t.account_id != f.account_id || t.base.is_deleted() {
            return false;
        }
        if let Some(q) = &f.query {
            if !like_containing(t.description.as_str(), q.as_str()) {
                return false;
            }
        }
        if let Some(c) = f.category_id {
            if t.category_id != c {
                return false;
            }
        }
        if let Some(k) = f.transaction_type {
            if t.transaction_type != k {
                return false;
            }
        }
        if let Some(m) = f.min_amount {
            if t.amount < m {
                return false;
            }
        }
        if let Some(m) = f.max_amount {
            if t.amount > m {
                return false;
            }
        }
        if let Some(d) = f.date_from {
            if t.date.is_before(&d) {
                return false;
            }
        }
        if let Some(d) = f.date_to {
            if t.date.is_after(&d) {
                return false;
            }
        }
        true
    }

    /// Copies of the stored transactions that meet `f`, latest date first.
    pub fn select(&self, f: &TransactionSearchFilter) -> (r: Vec<Transaction>)
        ensures
            r@ == search_results(self@, *f),
    {
        let n = self.table.len();
        let mut out: Vec<Transaction> = Vec::new();
        let mut i: usize = 0;
        while i < n
            invariant
                n == self@.len(),
                i <= n,
                out@ == stable_sort(self@.take(i as int).filter(selects(*f)), by_date_desc()),
            decreases n - i,
        {
            let t = self.table.get(i);
            proof {
                lemma_prefix_step(self@, i as int, |x: Transaction| 0int, selects(*f));
            }
            if Self::matches(t, f) {
                proof {
                    lemma_stable_sort_push(self@.take(i as int).filter(selects(*f)), *t, by_date_desc());
                }
                insert_in_order::<Transaction, LaterDateFirst>(&mut out, t.duplicate());
            }
            i += 1;
        }
        proof {
            assert(self@.take(n as int) =~= self@);
        }
        out
    }

    /// Live transactions of an account, latest date first.
    pub fn find_by_account_id(&self, account_id: EntityId) -> (r: Result<Vec<Transaction>, DomainError>)
        ensures
            r matches Ok(v) && v@ == search_results(self@, account_criteria(account_id)),
    {
        let f = TransactionSearchFilter { account_id, ..TransactionSearchFilter::default() };
        Ok(self.select(&f))
    }

    /// One page of the live transactions of an account, latest date first.
    pub fn find_by_account_id_paginated(&self, account_id: EntityId, page: &PageRequest)
        -> (r: Result<PaginatedResult<Transaction>, DomainError>)
        ensures
            r matches Ok(p) && {
                let all = search_results(self@, account_criteria(account_id));
                &&& p.items@ == page_of(all, page.offset as int, page.limit as int)
                &&& p.total_count == all.len()
                &&& p.has_more == (page.offset + p.items@.len() < all.len())
            },
    {
        let f = TransactionSearchFilter { account_id, ..TransactionSearchFilter::default() };
        let all = self.select(&f);
        let items = copy_page(&all, page.offset, page.limit);
        Ok(PaginatedResult::from_vec(items, all.len(), page))
    }

    /// Live transactions of an account dated within `[from, to]`, latest date first.
    pub fn find_by_date_range(&self, account_id: EntityId, from: Timestamp, to: Timestamp)
        -> (r: Result<Vec<Transaction>, DomainError>)
        ensures
            r matches Ok(v) && v@ == search_results(self@, range_criteria(account_id, from, to)),
    {
        let f = TransactionSearchFilter {
            account_id,
            date_from: Some(from),
            date_to: Some(to),
            ..TransactionSearchFilter::default()
        };
        Ok(self.select(&f))
    }

    /// One page of the live transactions of an account dated within `[from, to]`, latest
    /// date first.
    pub fn find_by_date_range_paginated(
        &self,
        account_id: EntityId,
        from: Timestamp,
        to: Timestamp,
        page: &PageRequest,
    ) -> (r: Result<PaginatedResult<Transaction>, DomainError>)
        ensures
            r matches Ok(p) && {
                let all = search_results(self@, range_criteria(account_id, from, to));
                &&& p.items@ == page_of(all, page.offset as int, page.limit as int)
                &&& p.total_count == all.len()
                &&& p.has_more == (page.offset + p.items@.len() < all.len())
            },
    {
        let f = TransactionSearchFilter {
            account_id,
            date_from: Some(from),
            date_to: Some(to),
            ..TransactionSearchFilter::default()
        };
        let all = self.select(&f);
        let items = copy_page(&all, page.offset, page.limit);
        Ok(PaginatedResult::from_vec(items, all.len(), page))
    }

    /// One page (50 results unless `limit` is set, from `offset` or the start) of the
    /// transactions meeting every criterion of `filter`, latest date first.
    pub fn search(&self, filter: &TransactionSearchFilter) -> (r: Result<PaginatedResult<Transaction>, DomainError>)
        ensures
            r matches Ok(p) && {
                let all = search_results(self@, *filter);
                let limit = match filter.limit { Some(l) => l as int, None => 50 };
                let offset = match filter.offset { Some(o) => o as int, None => 0 };
                &&& p.items@ == page_of(all, offset, limit)
                &&& p.total_count == all.len()
                &&& p.has_more == (offset + p.items@.len() < all.len())
            },
    {
        let all = self.select(filter);
        let limit = match filter.limit {
            Some(l) => l,
            None => 50,
        };
        let offset = match filter.offset {
            Some(o) => o,
            None => 0,
        };
        let page = PageRequest { limit, offset };
        let items = copy_page(&all, offset, limit);
        Ok(PaginatedResult::from_vec(items, all.len(), &page))
    }

    /// Applies an update: the stored transaction with the same identifier takes every
    /// field of `transaction` except its identifier and creation time. Nothing changes
    /// when no transaction has that identifier.
    pub fn update(&mut self, transaction: &Transaction) -> (r: Result<(), DomainError>)
        requires
            old(self).wf(),
        ensures
            final(self).wf(),
            r is Ok,
            final(self)@ == rows_after_update(old(self)@, *transaction),
    {
        match self.table.position_of(transaction.record_id()) {
            Some(i) => {
                let stored = self.table.get(i);
                let mut row = transaction.duplicate();
                row.base.id = stored.base.id;
                row.base.created_at = stored.base.created_at;
                proof {
                    assert(row == updated_row(old(self)@[i as int], *transaction));
                }
                self.table.replace(i, row);
                proof {
                    assert forall|j: int| 0 <= j < old(self)@.len() && j != i
                        implies #[trigger] old(self)@[j].key() != transaction.key() by {
                        assert(old(self)@[j].key() != old(self)@[i as int].key());
                    }
                    assert(self@ =~= rows_after_update(old(self)@, *transaction));
                }
            },
            None => {
                proof {
                    assert forall|j: int| 0 <= j < old(self)@.len()
                        implies #[trigger] old(self)@[j].key() != transaction.key() by {
                        if old(self)@[j].key() == transaction.key() {
                            assert(has_key(old(self)@, transaction.key()));
                        }
                    }
                    assert(self@ =~= rows_after_update(old(self)@, *transaction));
                }
            },
        }
        Ok(())
    }

    /// Soft-deletes the transaction with identifier `id` now: it is marked deleted and
    /// updated at the current time and awaits synchronization. Nothing changes when no
    /// transaction has that identifier.
    pub fn delete(&mut self, id: EntityId) -> (r: Result<(), DomainError>)
        requires
            old(self).wf(),
        ensures
            final(self).wf(),
            r is Ok,
            exists|now: Timestamp| final(self)@ == rows_after_delete(old(self)@, id, now),
    {
        let now = Timestamp::now();
        match self.table.position_of(id) {
            Some(i) => {
                let mut row = self.table.get(i).duplicate();
                row.base.deleted_at = Some(now);
                row.base.updated_at = now;
                row.sync_status = SyncStatus::Pending;
                self.table.replace(i, row);
                proof {
                    assert forall|j: int| 0 <= j < old(self)@.len() && j != i
                        implies #[trigger] old(self)@[j].key() != id by {
                        assert(old(self)@[j].key() != old(self)@[i as int].key());
                    }
                    assert(self@ =~= rows_after_delete(old(self)@, id, now));
                }
            },
            None => {
                proof {
                    assert forall|j: int| 0 <= j < old(self)@.len()
                        implies #[trigger] old(self)@[j].key() != id by {
                        if old(self)@[j].key() == id {
                            assert(has_key(old(self)@, id));
                        }
                    }
                    assert(self@ =~= rows_after_delete(old(self)@, id, now));
                }
            },
        }
        Ok(())
    }

    /// The transactions awaiting synchronization (deleted ones included), in storage order.
    pub fn find_pending_sync(&self) -> (r: Result<Vec<Transaction>, DomainError>)
        ensures
            r matches Ok(v) && v@ == self@.filter(|t: Transaction| pending(t)),
    {
        let n = self.table.len();
        let mut out: Vec<Transaction> = Vec::new();
        let mut i: usize = 0;
        while i < n
            invariant
                n == self@.len(),
                i <= n,
                out@ == self@.take(i as int).filter(|t: Transaction| pending(t)),
            decreases n - i,
        {
            proof {
                lemma_prefix_step(self@, i as int, |x: Transaction| 0int, |t: Transaction| pending(t));
            }
            let t = self.table.get(i);
            if t.sync_status == SyncStatus::Pending {
                out.push(t.duplicate());
            }
            i += 1;
        }
        proof {
            assert(self@.take(n as int) =~= self@);
        }
        Ok(out)
    }

    /// Sum of the weights that `m` gives the stored transactions.
    pub fn total_of<M: Measure>(&self, m: &M) -> (r: i128)
        ensures
            r == sum_by(self@, weight_of(*m)),
    {
        let n = self.table.len();
        let mut acc: i128 = 0;
        let mut i: usize = 0;
        while i < n
            invariant
                n == self@.len(),
                i <= n,
                acc == sum_by(self@.take(i as int), weight_of(*m)),
                -0x8000_0000_0000_0000 * i <= acc <= 0x8000_0000_0000_0000 * i,
            decreases n - i,
        {
            proof {
                lemma_prefix_step(self@, i as int, weight_of(*m), |x: Transaction| true);
            }
            let w = m.weigh(self.table.get(i));
            acc = acc + w as i128;
            i += 1;
        }
        proof {
            assert(self@.take(n as int) =~= self@);
        }
        acc
    }

    /// Balance of an account: its live income minus its live expenses and outgoing
    /// transfers. Fails when the income, the outflow or the balance is beyond `i64`.
    pub fn calculate_balance(&self, account_id: EntityId) -> (r: Result<i64, DomainError>)
        ensures
            ({
                let income = sum_by(self@, weight_of(IncomeOf { account_id }));
                let outflow = sum_by(self@, weight_of(OutflowOf { account_id }));
                &&& r is Ok <==> fits_i64(income) && fits_i64(outflow) && fits_i64(income - outflow)
                &&& r matches Ok(b) ==> b == income - outflow
                &&& r matches Err(e) ==> e is Storage && e.message() == integer_overflow_message()
            }),
    {
        let income = self.total_of(&IncomeOf { account_id });
        let outflow = self.total_of(&OutflowOf { account_id });
        if !fits(income) || !fits(outflow) {
            return Err(integer_overflow());
        }
        let balance = income - outflow;
        if !fits(balance) {
            return Err(integer_overflow());
        }
        Ok(balance as i64)
    }
}

/// Message of the error for a total beyond the range of `i64`.
pub open spec fn integer_overflow_message() -> Seq<char> {
    query_error_text("integer overflow"@)
}

/// The error for a total beyond the range of `i64`.
pub fn integer_overflow() -> (r: DomainError)
    ensures
        r is Storage,
        r.message() == integer_overflow_message(),
{
    StorageError::Query("integer overflow".to_string()).into_domain()
}

/// Whether `x` lies in the range of `i64`.
pub open spec fn fits_i64(x: int) -> bool {
    i64::MIN <= x <= i64::MAX
}

/// Whether `x` lies in the range of `i64`.
pub fn fits(x: i128) -> (r: bool)
    ensures
        r == fits_i64(x as int),
{
    -0x8000_0000_0000_0000 <= x && x <= 0x7fff_ffff_ffff_ffff
}

/// A weight given to each transaction, summed by queries.
pub trait Measure {
    /// The weight of `t`.
    spec fn weight(&self, t: Transaction) -> int;

    /// The weight of `t`; weights lie in the range of `i64`.
    fn weigh(&self, t: &Transaction) -> (r: i64)
        ensures
            r == self.weight(*t);
}

/// The weights of `m`, as a function.
pub open spec fn weight_of<M: Measure>(m: M) -> spec_fn(Transaction) -> int {
    |t: Transaction| m.weight(t)
}

/// The amount of each live income transaction of an account.
pub struct IncomeOf {
    pub account_id: EntityId,
}

impl Measure for IncomeOf {
    open spec fn weight(&self, t: Transaction) -> int {
        if t.account_id == self.account_id && !t.deleted() && t.transaction_type == TransactionType::Income {
            t.amount as int
        } else {
            0
        }
    }

    fn weigh(&self, t: &Transaction) -> (r: i64) {
        if t.account_id == self.account_id && !t.base.is_deleted()
            && t.transaction_type == TransactionType::Income {
            t.amount
        } else {
            0
        }
    }
}

/// The amount of each live expense or outgoing transfer of an account.
pub struct OutflowOf {
    pub account_id: EntityId,
}

impl Measure for OutflowOf {
    open spec fn weight(&self, t: Transaction) -> int {
        if t.account_id == self.account_id && !t.deleted() && t.transaction_type != TransactionType::Income {
            t.amount as int
        } else {
            0
        }
    }

    fn weigh(&self, t: &Transaction) -> (r: i64) {
        if t.account_id == self.account_id && !t.base.is_deleted()
            && t.transaction_type != TransactionType::Income {
            t.amount
        } else {
            0
        }
    }
}

/// A way of grouping transactions: which ones count, the group each belongs to, and
/// two amounts summed per group.
pub trait Grouping {
    /// Whether `t` counts at all.
    spec fn includes(&self, t: Transaction) -> bool;

    /// The group of `t`.
    spec fn group_key(&self, t: Transaction) -> u128;

    /// The first amount `t` adds to its group.
    spec fn first(&self, t: Transaction) -> int;

    /// The second amount `t` adds to its group.
    spec fn second(&self, t: Transaction) -> int;

    /// A bound on the group keys.
    spec fn key_limit(&self) -> u128;

    /// Whether the grouping can be applied (what it consults is well formed).
    spec fn ready(&self) -> bool;

    /// Every group key lies within the bound.
    proof fn lemma_key_limit(&self, t: Transaction)
        ensures
            self.group_key(t) <= self.key_limit();

    /// Whether `t` counts at all.
    fn counts(&self, t: &Transaction) -> (r: bool)
        requires
            self.ready(),
        ensures
            r == self.includes(*t);

    /// The group of `t`.
    fn key_of(&self, t: &Transaction) -> (r: u128)
        ensures
            r == self.group_key(*t);

    /// The first amount `t` adds to its group.
    fn first_of(&self, t: &Transaction) -> (r: i64)
        ensures
            r == self.first(*t);

    /// The second amount `t` adds to its group.
    fn second_of(&self, t: &Transaction) -> (r: i64)
        ensures
            r == self.second(*t);
}

/// Whether `t` counts in group `k`.
pub open spec fn in_group<G: Grouping>(g: G, k: u128) -> spec_fn(Transaction) -> bool {
    |t: Transaction| g.includes(t) && g.group_key(t) == k
}

/// The first amount `t` adds to group `k`.
pub open spec fn first_in_group<G: Grouping>(g: G, k: u128) -> spec_fn(Transaction) -> int {
    |t: Transaction| if g.includes(t) && g.group_key(t) == k { g.first(t) } else { 0 }
}

/// The second amount `t` adds to group `k`.
pub open spec fn second_in_group<G: Grouping>(g: G, k: u128) -> spec_fn(Transaction) -> int {
    |t: Transaction| if g.includes(t) && g.group_key(t) == k { g.second(t) } else { 0 }
}

/// One group of transactions: its key, its two sums and how many transactions it has.
#[derive(Debug, Clone, Copy, PartialEq, Eq, Structural)]
pub struct Bucket {
    pub key: u128,
    pub first: i128,
    pub second: i128,
    pub count: usize,
}

/// Whether the sums of a bucket are within `i` amounts of `i64` and its count within `i`.
pub open spec fn bounded(b: Bucket, i: int) -> bool {
    &&& -0x8000_0000_0000_0000 * i <= b.first <= 0x8000_0000_0000_0000 * i
    &&& -0x8000_0000_0000_0000 * i <= b.second <= 0x8000_0000_0000_0000 * i
    &&& b.count <= i
}

/// Whether `b` lists the groups of `rows` under `g`: one bucket per group that has a
/// counted transaction, in increasing key order, each with its sums and count.
pub open spec fn groups_of<G: Grouping>(b: Seq<Bucket>, rows: Seq<Transaction>, g: G) -> bool {
    &&& forall|i: int, j: int| 0 <= i < j < b.len() ==> #[trigger] b[i].key < #[trigger] b[j].key
    &&& forall|i: int| 0 <= i < b.len() ==> {
        &&& #[trigger] b[i].first == sum_by(rows, first_in_group(g, b[i].key))
        &&& b[i].second == sum_by(rows, second_in_group(g, b[i].key))
        &&& b[i].count == count_by(rows, in_group(g, b[i].key))
        &&& b[i].count > 0
    }
    &&& forall|k: int| 0 <= k < rows.len() && g.includes(rows[k]) ==>
        exists|i: int| 0 <= i < b.len() && #[trigger] b[i].key == g.group_key(#[trigger] rows[k])
    &&& forall|i: int| 0 <= i < b.len() ==> #[trigger] b[i].key <= g.key_limit()
}

impl InMemoryTransactionRepository {
    /// The groups of the stored transactions under `g`, in increasing key order.
    #[verifier::rlimit(60)]
    pub fn group_by<G: Grouping>(&self, g: &G) -> (r: Vec<Bucket>)
        requires
            g.ready(),
        ensures
            groups_of(r@, self@, *g),
    {
        let n = self.table.len();
        let mut b: Vec<Bucket> = Vec::new();
        let mut i: usize = 0;
        while i < n
            invariant
                g.ready(),
                n == self@.len(),
                i <= n,
                groups_of(b@, self@.take(i as int), *g),
                forall|j: int| 0 <= j < b@.len() ==> bounded(#[trigger] b@[j], i as int),
            decreases n - i,
        {
            let ghost rows = self@;
            let ghost old_b = b@;
            let t = self.table.get(i);
            proof {
                assert forall|j: int| 0 <= j < old_b.len() implies {
                    &&& sum_by(rows.take(i + 1), first_in_group(*g, #[trigger] old_b[j].key))
                        == sum_by(rows.take(i as int), first_in_group(*g, old_b[j].key)) + first_in_group(*g, old_b[j].key)(*t)
                    &&& sum_by(rows.take(i + 1), second_in_group(*g, old_b[j].key))
                        == sum_by(rows.take(i as int), second_in_group(*g, old_b[j].key)) + second_in_group(*g, old_b[j].key)(*t)
                    &&& count_by(rows.take(i + 1), in_group(*g, old_b[j].key))
                        == count_by(rows.take(i as int), in_group(*g, old_b[j].key))
                            + if in_group(*g, old_b[j].key)(*t) { 1nat } else { 0nat }
                } by {
                    lemma_prefix_step(rows, i as int, first_in_group(*g, old_b[j].key), in_group(*g, old_b[j].key));
                    lemma_prefix_step(rows, i as int, second_in_group(*g, old_b[j].key), in_group(*g, old_b[j].key));
                }
                assert(rows.take(i + 1)[i as int] == *t);
                assert forall|k: int| 0 <= k < i implies rows.take(i + 1)[k] == rows.take(i as int)[k] by {}
            }
            if g.counts(t) {
                let kt = g.key_of(t);
                proof {
                    g.lemma_key_limit(*t);
                }
                let w1 = g.first_of(t);
                let w2 = g.second_of(t);
                let m = b.len();
                let mut p: usize = 0;
                while p < m && b[p].key < kt
                    invariant
                        m == b@.len(),
                        b@ == old_b,
                        p <= m,
                        forall|j: int| 0 <= j < p ==> #[trigger] b@[j].key < kt,
                    decreases m - p,
                {
                    p += 1;
                }
                if p < m && b[p].key == kt {
                    let old_bucket = b[p];
                    let nb = Bucket {
                        key: kt,
                        first: old_bucket.first + w1 as i128,
                        second: old_bucket.second + w2 as i128,
                        count: old_bucket.count + 1,
                    };
                    b.set(p, nb);
                    proof {
                        assert forall|j: int| 0 <= j < b@.len() implies bounded(#[trigger] b@[j], i + 1) by {
                            if j != p {
                                assert(b@[j] == old_b[j]);
                                assert(bounded(old_b[j], i as int));
                            } else {
                                assert(bounded(old_b[j], i as int));
                            }
                        }
                        assert forall|j: int| 0 <= j < b@.len() implies {
                            &&& #[trigger] b@[j].first == sum_by(rows.take(i + 1), first_in_group(*g, b@[j].key))
                            &&& b@[j].second == sum_by(rows.take(i + 1), second_in_group(*g, b@[j].key))
                            &&& b@[j].count == count_by(rows.take(i + 1), in_group(*g, b@[j].key))
                            &&& b@[j].count > 0
                        } by {
                            assert(b@[j].key == old_b[j].key);
                        }
                        assert forall|k: int| 0 <= k < rows.take(i + 1).len() && g.includes(rows.take(i + 1)[k])
                            implies exists|j: int| 0 <= j < b@.len() && #[trigger] b@[j].key == g.group_key(#[trigger] rows.take(i + 1)[k]) by {
                            if k < i {
                                assert(rows.take(i + 1)[k] == rows.take(i as int)[k]);
                                let j = choose|j: int| 0 <= j < old_b.len() && #[trigger] old_b[j].key == g.group_key(rows.take(i as int)[k]);
                                assert(b@[j].key == old_b[j].key);
                            } else {
                                assert(b@[p as int].key == kt);
                            }
                        }
                        assert forall|x: int, y: int| 0 <= x < y < b@.len() implies #[trigger] b@[x].key < #[trigger] b@[y].key by {
                            assert(b@[x].key == old_b[x].key);
                            assert(b@[y].key == old_b[y].key);
                        }
                    }
                } else {
                    proof {
                        assert forall|k: int| 0 <= k < i implies #[trigger] first_in_group(*g, kt)(rows.take(i as int)[k]) == 0
                            && !in_group(*g, kt)(rows.take(i as int)[k]) by {
                            if g.includes(rows.take(i as int)[k]) && g.group_key(rows.take(i as int)[k]) == kt {
                                let j = choose|j: int| 0 <= j < old_b.len() && #[trigger] old_b[j].key == g.group_key(rows.take(i as int)[k]);
                                if j < p {
                                    assert(old_b[j].key < kt);
                                } else if j == p {
                                } else {
                                    assert(old_b[p as int].key < old_b[j].key);
                                    assert(old_b[p as int].key >= kt);
                                }
                            }
                        }
                        assert forall|k: int| 0 <= k < i implies #[trigger] second_in_group(*g, kt)(rows.take(i as int)[k]) == 0 by {
                            assert(first_in_group(*g, kt)(rows.take(i as int)[k]) == 0);
                        }
                        lemma_sum_zero(rows.take(i as int), first_in_group(*g, kt), in_group(*g, kt));
                        lemma_sum_zero(rows.take(i as int), second_in_group(*g, kt), in_group(*g, kt));
                        lemma_prefix_step(rows, i as int, first_in_group(*g, kt), in_group(*g, kt));
                        lemma_prefix_step(rows, i as int, second_in_group(*g, kt), in_group(*g, kt));
                    }
                    let nb = Bucket { key: kt, first: w1 as i128, second: w2 as i128, count: 1 };
                    b.insert(p, nb);
                    proof {
                        assert forall|j: int| 0 <= j < b@.len() implies bounded(#[trigger] b@[j], i + 1) by {
                            if j < p {
                                assert(b@[j] == old_b[j]);
                                assert(bounded(old_b[j], i as int));
                            } else if j > p {
                                assert(b@[j] == old_b[j - 1]);
                                assert(bounded(old_b[j - 1], i as int));
                            }
                        }
                        assert forall|j: int| 0 <= j < b@.len() implies {
                            &&& #[trigger] b@[j].first == sum_by(rows.take(i + 1), first_in_group(*g, b@[j].key))
                            &&& b@[j].second == sum_by(rows.take(i + 1), second_in_group(*g, b@[j].key))
                            &&& b@[j].count == count_by(rows.take(i + 1), in_group(*g, b@[j].key))
                            &&& b@[j].count > 0
                        } by {
                            if j < p {
                                assert(b@[j] == old_b[j]);
                                assert(old_b[j].key < kt);
                                assert(old_b[j].first == sum_by(rows.take(i as int), first_in_group(*g, old_b[j].key)));
                            } else if j > p {
                                assert(b@[j] == old_b[j - 1]);
                                assert(old_b[p as int].key > kt);
                                if j - 1 > p {
                                    assert(old_b[j - 1].key > old_b[p as int].key);
                                }
                                assert(old_b[j - 1].first == sum_by(rows.take(i as int), first_in_group(*g, old_b[j - 1].key)));
                            } else {
                                assert(b@[j].key == kt);
                                assert(first_in_group(*g, kt)(*t) == w1);
                            }
                        }
                        assert forall|k: int| 0 <= k < rows.take(i + 1).len() && g.includes(rows.take(i + 1)[k])
                            implies exists|j: int| 0 <= j < b@.len() && #[trigger] b@[j].key == g.group_key(#[trigger] rows.take(i + 1)[k]) by {
                            if k < i {
                                assert(rows.take(i + 1)[k] == rows.take(i as int)[k]);
                                let j = choose|j: int| 0 <= j < old_b.len() && #[trigger] old_b[j].key == g.group_key(rows.take(i as int)[k]);
                                if j < p {
                                    assert(b@[j] == old_b[j]);
                                } else {
                                    assert(b@[j + 1] == old_b[j]);
                                }
                            } else {
                                assert(b@[p as int].key == kt);
                            }
                        }
                        assert forall|x: int, y: int| 0 <= x < y < b@.len() implies #[trigger] b@[x].key < #[trigger] b@[y].key by {
                            if y < p {
                                assert(b@[x] == old_b[x]);
                                assert(b@[y] == old_b[y]);
                            } else if y == p {
                                assert(b@[x] == old_b[x]);
                            } else if x < p {
                                assert(b@[x] == old_b[x]);
                                assert(b@[y] == old_b[y - 1]);
                                assert(old_b[x].key < kt);
                                assert(old_b[p as int].key > kt);
                            } else if x == p {
                                assert(b@[y] == old_b[y - 1]);
                                assert(old_b[p as int].key > kt);
                            } else {
                                assert(b@[x] == old_b[x - 1]);
                                assert(b@[y] == old_b[y - 1]);
                            }
                        }
                    }
                }
            } else {
                proof {
                    assert forall|j: int| 0 <= j < b@.len() implies {
                        &&& #[trigger] b@[j].first == sum_by(rows.take(i + 1), first_in_group(*g, b@[j].key))
                        &&& b@[j].second == sum_by(rows.take(i + 1), second_in_group(*g, b@[j].key))
                        &&& b@[j].count == count_by(rows.take(i + 1), in_group(*g, b@[j].key))
                        &&& b@[j].count > 0
                    } by {
                        assert(b@[j] == old_b[j]);
                    }
                    assert forall|j: int| 0 <= j < b@.len() implies bounded(#[trigger] b@[j], i + 1) by {
                        assert(bounded(old_b[j], i as int));
                    }
                    assert forall|k: int| 0 <= k < rows.take(i + 1).len() && g.includes(rows.take(i + 1)[k])
                        implies exists|j: int| 0 <= j < b@.len() && #[trigger] b@[j].key == g.group_key(#[trigger] rows.take(i + 1)[k]) by {
                        assert(k < i);
                        assert(rows.take(i + 1)[k] == rows.take(i as int)[k]);
                    }
                }
            }
            i += 1;
        }
        proof {
            assert(self@.take(n as int) =~= self@);
        }
        b
    }
}

} // verus!
