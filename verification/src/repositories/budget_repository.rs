//! Stored budgets.
use vstd::prelude::*;
use crate::entities::budget::Budget;
use crate::entities::common::BaseEntity;
use crate::errors::{DomainError, StorageError, query_error_text};
use crate::ids::EntityId;
use crate::queries::{Order, relation, stable_sort};
use crate::records::{
    Filter, Record, Retirable, Revisable, Table, accepted, has_key, lookup, rows_retired, rows_revised, unique_keys};
use crate::time::Timestamp;

verus! {

impl Record for Budget {
    open spec fn key(&self) -> EntityId {
        self.base.id
    }

    fn record_id(&self) -> (r: EntityId) {
        self.base.id
    }

    fn copy_record(&self) -> (r: Budget) {
        self.duplicate()
    }
}

impl Revisable for Budget {
    /// An update keeps the identifier and the creation time.
    open spec fn revised(stored: Budget, incoming: Budget) -> Budget {
        Budget { base: BaseEntity { id: stored.base.id, created_at: stored.base.created_at, ..incoming.base }, ..incoming }
    }

    fn revise(&self, incoming: &Budget) -> (r: Budget) {
        let mut r = incoming.duplicate();
        r.base.id = self.base.id;
        r.base.created_at = self.base.created_at;
        r
    }

    proof fn lemma_revised_key(stored: Budget, incoming: Budget) {
    }
}

impl Retirable for Budget {
    open spec fn retired(&self) -> bool {
        self.base.deleted_at is Some
    }

    /// Soft deletion marks the budget deleted and updated at `now`.
    open spec fn retired_at(self, now: Timestamp) -> Budget {
        Budget { base: BaseEntity { deleted_at: Some(now), updated_at: now, ..self.base }, ..self }
    }

    fn is_retired(&self) -> (r: bool) {
        self.base.is_deleted()
    }

    fn retire(&self, now: Timestamp) -> (r: Budget) {
        let mut r = self.duplicate();
        r.base.deleted_at = Some(now);
        r.base.updated_at = now;
        r
    }

    proof fn lemma_retired_key(t: Budget, now: Timestamp) {
    }
}

/// The live budgets of one account.
pub struct BudgetsOf {
    pub account_id: EntityId,
}

impl Filter<Budget> for BudgetsOf {
    open spec fn accepts(&self, b: Budget) -> bool {
        b.account_id == self.account_id && !b.retired()
    }

    fn test(&self, b: &Budget) -> (r: bool) {
        b.account_id == self.account_id && !b.is_retired()
    }
}

/// Budgets listed most recently created first.
pub struct NewestBudgetFirst;

impl Order<Budget> for NewestBudgetFirst {
    open spec fn before(a: Budget, b: Budget) -> bool {
        a.base.created_at.unix() > b.base.created_at.unix()
    }

    fn precedes(a: &Budget, b: &Budget) -> (r: bool) {
        a.base.created_at.is_after(&b.base.created_at)
    }
}

/// Message of the error for a budget whose identifier is already stored.
pub open spec fn duplicate_budget_message() -> Seq<char> {
    query_error_text("UNIQUE constraint failed: budgets.id"@)
}

/// Stored budgets, in insertion order, identifiers unique.
pub struct InMemoryBudgetRepository {
    table: Table<Budget>,
}

impl View for InMemoryBudgetRepository {
    type V = Seq<Budget>;

    closed spec fn view(&self) -> Seq<Budget> {
        self.table@
    }
}

impl InMemoryBudgetRepository {
    /// Whether the stored budgets have unique identifiers.
    pub open spec fn wf(&self) -> bool {
        unique_keys(self@)
    }

    /// The stored records, in storage order (deleted ones included).
    pub fn records(&self) -> (r: &Vec<Budget>)
        ensures
            r@ == self@,
    {
        self.table.records()
    }

    /// An empty repository.
    pub fn new() -> (r: InMemoryBudgetRepository)
        ensures
            r@ == Seq::<Budget>::empty(),
            r.wf(),
    {
        InMemoryBudgetRepository { table: Table::new() }
    }

    /// Stores a new budget; fails when one with the same identifier is stored.
    pub fn save(&mut self, budget: &Budget) -> (r: Result<(), DomainError>)
        requires
            old(self).wf(),
        ensures
            final(self).wf(),
            r is Ok <==> !has_key(old(self)@, budget.key()),
            r is Ok ==> final(self)@ == old(self)@.push(*budget),
            r matches Err(e) ==> final(self)@ == old(self)@ && e is Storage
                && e.message() == duplicate_budget_message(),
    {
        if self.table.insert(budget.duplicate()) {
            Ok(())
        } else {
            Err(StorageError::Query("UNIQUE constraint failed: budgets.id".to_string()).into_domain())
        }
    }

    /// The budget with identifier `id`, deleted or not.
    pub fn find_by_id(&self, id: EntityId) -> (r: Result<Option<Budget>, DomainError>)
        requires
            self.wf(),
        ensures
            r == Ok::<Option<Budget>, DomainError>(lookup(self@, id)),
    {
        Ok(self.table.find(id))
    }

    /// The live budgets of an account, most recently created first.
    pub fn find_by_account_id(&self, account_id: EntityId) -> (r: Result<Vec<Budget>, DomainError>)
        ensures
            r matches Ok(v) && v@ == stable_sort(
                self@.filter(accepted(BudgetsOf { account_id })),
                relation::<Budget, NewestBudgetFirst>(),
            ),
    {
        Ok(self.table.select_ordered::<BudgetsOf, NewestBudgetFirst>(&BudgetsOf { account_id }))
    }

    /// Applies an update: the stored budget with the same identifier takes every field of
    /// `budget` except its identifier and creation time. Nothing changes when no budget has
    /// that identifier.
    pub fn update(&mut self, budget: &Budget) -> (r: Result<(), DomainError>)
        requires
            old(self).wf(),
        ensures
            final(self).wf(),
            r is Ok,
            final(self)@ == rows_revised(old(self)@, *budget),
    {
        self.table.revise_key(budget);
        Ok(())
    }

    /// Soft-deletes the budget with identifier `id` now: it is marked deleted and updated at
    /// the current time. Nothing changes when no budget has that identifier.
    pub fn delete(&mut self, id: EntityId) -> (r: Result<(), DomainError>)
        requires
            old(self).wf(),
        ensures
            final(self).wf(),
            r is Ok,
            exists|now: Timestamp| final(self)@ == rows_retired(old(self)@, id, now),
    {
        let now = Timestamp::now();
        self.table.retire_key(id, now);
        assert(self@ == rows_retired(old(self)@, id, now));
        Ok(())
    }
}

} // verus!
