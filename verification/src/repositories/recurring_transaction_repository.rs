//! Stored recurring transaction templates.
use vstd::prelude::*;
use crate::entities::common::BaseEntity;
use crate::entities::pagination::{PageRequest, PaginatedResult};
use crate::entities::recurring_transaction::RecurringTransaction;
use crate::errors::{DomainError, StorageError, query_error_text};
use crate::ids::EntityId;
use crate::queries::{Order, copy_page, page_of, relation, stable_sort};
use crate::records::{
    Filter, Record, Retirable, Revisable, Table, accepted, has_key, lookup, rows_retired, rows_revised, unique_keys};
use crate::time::Timestamp;

verus! {

impl Record for RecurringTransaction {
    open spec fn key(&self) -> EntityId {
        self.base.id
    }

    fn record_id(&self) -> (r: EntityId) {
        self.base.id
    }

    fn copy_record(&self) -> (r: RecurringTransaction) {
        self.duplicate()
    }
}

impl Revisable for RecurringTransaction {
    /// An update keeps the identifier and the creation time.
    open spec fn revised(stored: RecurringTransaction, incoming: RecurringTransaction) -> RecurringTransaction {
        RecurringTransaction {
            base: BaseEntity { id: stored.base.id, created_at: stored.base.created_at, ..incoming.base },
            ..incoming
        }
    }

    fn revise(&self, incoming: &RecurringTransaction) -> (r: RecurringTransaction) {
        let mut r = incoming.duplicate();
        r.base.id = self.base.id;
        r.base.created_at = self.base.created_at;
        r
    }

    proof fn lemma_revised_key(stored: RecurringTransaction, incoming: RecurringTransaction) {
    }
}

impl Retirable for RecurringTransaction {
    open spec fn retired(&self) -> bool {
        self.base.deleted_at is Some
    }

    /// Soft deletion marks the template deleted and updated at `now`.
    open spec fn retired_at(self, now: Timestamp) -> RecurringTransaction {
        RecurringTransaction { base: BaseEntity { deleted_at: Some(now), updated_at: now, ..self.base }, ..self }
    }

    fn is_retired(&self) -> (r: bool) {
        self.base.is_deleted()
    }

    fn retire(&self, now: Timestamp) -> (r: RecurringTransaction) {
        let mut r = self.duplicate();
        r.base.deleted_at = Some(now);
        r.base.updated_at = now;
        r
    }

    proof fn lemma_retired_key(t: RecurringTransaction, now: Timestamp) {
    }
}

/// The live templates of one account.
pub struct TemplatesOf {
    pub account_id: EntityId,
}

impl Filter<RecurringTransaction> for TemplatesOf {
    open spec fn accepts(&self, t: RecurringTransaction) -> bool {
        t.account_id == self.account_id && !t.retired()
    }

    fn test(&self, t: &RecurringTransaction) -> (r: bool) {
        t.account_id == self.account_id && !t.is_retired()
    }
}

/// The live active templates, optionally only those whose next occurrence is no later
/// than an instant.
pub struct ActiveTemplates {
    pub due_by: Option<Timestamp>,
}

impl Filter<RecurringTransaction> for ActiveTemplates {
    open spec fn accepts(&self, t: RecurringTransaction) -> bool {
        &&& t.is_active
        &&& !t.retired()
        &&& (self.due_by matches Some(b) ==> t.next_occurrence.unix() <= b.unix())
    }

    fn test(&self, t: &RecurringTransaction) -> (r: bool) {
        let due = match self.due_by {
            Some(b) => !t.next_occurrence.is_after(&b),
            None => true,
        };
        t.is_active && !t.is_retired() && due
    }
}

/// Templates listed most recently created first.
pub struct NewestTemplateFirst;

impl Order<RecurringTransaction> for NewestTemplateFirst {
    open spec fn before(a: RecurringTransaction, b: RecurringTransaction) -> bool {
        a.base.created_at.unix() > b.base.created_at.unix()
    }

    fn precedes(a: &RecurringTransaction, b: &RecurringTransaction) -> (r: bool) {
        a.base.created_at.is_after(&b.base.created_at)
    }
}

/// The live templates of an account, most recently created first.
pub open spec fn templates_of(rows: Seq<RecurringTransaction>, account_id: EntityId) -> Seq<RecurringTransaction> {
    stable_sort(rows.filter(accepted(TemplatesOf { account_id })), relation::<RecurringTransaction, NewestTemplateFirst>())
}

/// Message of the error for a template whose identifier is already stored.
pub open spec fn duplicate_template_message() -> Seq<char> {
    query_error_text("UNIQUE constraint failed: recurring_transactions.id"@)
}

/// Stored recurring transaction templates, in insertion order, identifiers unique.
pub struct InMemoryRecurringTransactionRepository {
    table: Table<RecurringTransaction>,
}

impl View for InMemoryRecurringTransactionRepository {
    type V = Seq<RecurringTransaction>;

    closed spec fn view(&self) -> Seq<RecurringTransaction> {
        self.table@
    }
}

impl InMemoryRecurringTransactionRepository {
    /// Whether the stored templates have unique identifiers.
    pub open spec fn wf(&self) -> bool {
        unique_keys(self@)
    }

    /// The stored records, in storage order (deleted ones included).
    pub fn records(&self) -> (r: &Vec<RecurringTransaction>)
        ensures
            r@ == self@,
    {
        self.table.records()
    }

    /// An empty repository.
    pub fn new() -> (r: InMemoryRecurringTransactionRepository)
        ensures
            r@ == Seq::<RecurringTransaction>::empty(),
            r.wf(),
    {
        InMemoryRecurringTransactionRepository { table: Table::new() }
    }

    /// Stores a new template; fails when one with the same identifier is stored.
    pub fn save(&mut self, recurring: &RecurringTransaction) -> (r: Result<(), DomainError>)
        requires
            old(self).wf(),
        ensures
            final(self).wf(),
            r is Ok <==> !has_key(old(self)@, recurring.key()),
            r is Ok ==> final(self)@ == old(self)@.push(*recurring),
            r matches Err(e) ==> final(self)@ == old(self)@ && e is Storage
                && e.message() == duplicate_template_message(),
    {
        if self.table.insert(recurring.duplicate()) {
            Ok(())
        } else {
            Err(StorageError::Query("UNIQUE constraint failed: recurring_transactions.id".to_string()).into_domain())
        }
    }

    /// The template with identifier `id`, deleted or not.
    pub fn find_by_id(&self, id: EntityId) -> (r: Result<Option<RecurringTransaction>, DomainError>)
        requires
            self.wf(),
        ensures
            r == Ok::<Option<RecurringTransaction>, DomainError>(lookup(self@, id)),
    {
        Ok(self.table.find(id))
    }

    /// The live templates of an account, most recently created first.
    pub fn find_by_account_id(&self, account_id: EntityId) -> (r: Result<Vec<RecurringTransaction>, DomainError>)
        ensures
            r matches Ok(v) && v@ == templates_of(self@, account_id),
    {
        Ok(self.table.select_ordered::<TemplatesOf, NewestTemplateFirst>(&TemplatesOf { account_id }))
    }

    /// One page of the live templates of an account, most recently created first.
    pub fn find_by_account_id_paginated(&self, account_id: EntityId, page: &PageRequest)
        -> (r: Result<PaginatedResult<RecurringTransaction>, DomainError>)
        ensures
            r matches Ok(p) && {
                let all = templates_of(self@, account_id);
                &&& p.items@ == page_of(all, page.offset as int, page.limit as int)
                &&& p.total_count == all.len()
                &&& p.has_more == (page.offset + p.items@.len() < all.len())
            },
    {
        let all = self.table.select_ordered::<TemplatesOf, NewestTemplateFirst>(&TemplatesOf { account_id });
        let items = copy_page(&all, page.offset, page.limit);
        Ok(PaginatedResult::from_vec(items, all.len(), page))
    }

    /// The live active templates, in storage order.
    pub fn find_active(&self) -> (r: Result<Vec<RecurringTransaction>, DomainError>)
        ensures
            r matches Ok(v) && v@ == self@.filter(accepted(ActiveTemplates { due_by: None })),
    {
        Ok(self.table.select(&ActiveTemplates { due_by: None }))
    }

    /// The live active templates whose next occurrence is no later than `before`, in
    /// storage order.
    pub fn find_due(&self, before: Timestamp) -> (r: Result<Vec<RecurringTransaction>, DomainError>)
        ensures
            r matches Ok(v) && v@ == self@.filter(accepted(ActiveTemplates { due_by: Some(before) })),
    {
        Ok(self.table.select(&ActiveTemplates { due_by: Some(before) }))
    }

    /// Applies an update: the stored template with the same identifier takes every field of
    /// `recurring` except its identifier and creation time. Nothing changes when no template
    /// has that identifier.
    pub fn update(&mut self, recurring: &RecurringTransaction) -> (r: Result<(), DomainError>)
        requires
            old(self).wf(),
        ensures
            final(self).wf(),
            r is Ok,
            final(self)@ == rows_revised(old(self)@, *recurring),
    {
        self.table.revise_key(recurring);
        Ok(())
    }

    /// Soft-deletes the template with identifier `id` now: it is marked deleted and updated
    /// at the current time. Nothing changes when no template has that identifier.
    pub fn delete(&mut self, id: EntityId) -> (r: Result<(), DomainError>)
        requires
            old(self).wf(),
        ensures
            final(self).wf(),
            r is Ok,
            exists|now: Timestamp| final(self)@ == rows_retired(old(self)@, id, now),
    {
        let now = Timestamp::now();
        self.table.retire_key(id, now);
        assert(self@ == rows_retired(old(self)@, id, now));
        Ok(())
    }
}

} // verus!
