//! Stored categories.
use vstd::prelude::*;
use crate::entities::category::Category;
use crate::entities::common::{BaseEntity, SyncStatus};
use crate::errors::{DomainError, StorageError, query_error_text};
use crate::ids::EntityId;
use crate::records::{
    Filter, Record, Retirable, Revisable, Table, accepted, has_key, lookup_live, rows_retired, rows_revised, unique_keys};
use crate::time::Timestamp;

verus! {

impl Record for Category {
    open spec fn key(&self) -> EntityId {
        self.base.id
    }

    fn record_id(&self) -> (r: EntityId) {
        self.base.id
    }

    fn copy_record(&self) -> (r: Category) {
        self.duplicate()
    }
}

impl Revisable for Category {
    /// An update keeps the identifier, the owner and the creation time.
    open spec fn revised(stored: Category, incoming: Category) -> Category {
        Category {
            base: BaseEntity { id: stored.base.id, created_at: stored.base.created_at, ..incoming.base },
            user_id: stored.user_id,
            ..incoming
        }
    }

    fn revise(&self, incoming: &Category) -> (r: Category) {
        let mut r = incoming.duplicate();
        r.base.id = self.base.id;
        r.base.created_at = self.base.created_at;
        r.user_id = self.user_id;
        r
    }

    proof fn lemma_revised_key(stored: Category, incoming: Category) {
    }
}

impl Retirable for Category {
    open spec fn retired(&self) -> bool {
        self.base.deleted_at is Some
    }

    /// Soft deletion marks the category deleted and updated at `now`, awaiting synchronization.
    open spec fn retired_at(self, now: Timestamp) -> Category {
        Category {
            base: BaseEntity { deleted_at: Some(now), updated_at: now, ..self.base },
            sync_status: SyncStatus::Pending,
            ..self
        }
    }

    fn is_retired(&self) -> (r: bool) {
        self.base.is_deleted()
    }

    fn retire(&self, now: Timestamp) -> (r: Category) {
        let mut r = self.duplicate();
        r.base.deleted_at = Some(now);
        r.base.updated_at = now;
        r.sync_status = SyncStatus::Pending;
        r
    }

    proof fn lemma_retired_key(t: Category, now: Timestamp) {
    }
}

/// The live categories of one user.
pub struct CategoriesOf {
    pub user_id: EntityId,
}

impl Filter<Category> for CategoriesOf {
    open spec fn accepts(&self, c: Category) -> bool {
        c.user_id == self.user_id && !c.retired()
    }

    fn test(&self, c: &Category) -> (r: bool) {
        c.user_id == self.user_id && !c.is_retired()
    }
}

/// The categories awaiting synchronization.
pub struct PendingCategories;

impl Filter<Category> for PendingCategories {
    open spec fn accepts(&self, c: Category) -> bool {
        c.sync_status == SyncStatus::Pending
    }

    fn test(&self, c: &Category) -> (r: bool) {
        c.sync_status == SyncStatus::Pending
    }
}

/// Message of the error for a category whose identifier is already stored.
pub open spec fn duplicate_category_message() -> Seq<char> {
    query_error_text("UNIQUE constraint failed: categories.id"@)
}

/// Stored categories, in insertion order, identifiers unique.
pub struct InMemoryCategoryRepository {
    table: Table<Category>,
}

impl View for InMemoryCategoryRepository {
    type V = Seq<Category>;

    closed spec fn view(&self) -> Seq<Category> {
        self.table@
    }
}

impl InMemoryCategoryRepository {
    /// Whether the stored categories have unique identifiers.
    pub open spec fn wf(&self) -> bool {
        unique_keys(self@)
    }

    /// The stored records, in storage order (deleted ones included).
    pub fn records(&self) -> (r: &Vec<Category>)
        ensures
            r@ == self@,
    {
        self.table.records()
    }

    /// An empty repository.
    pub fn new() -> (r: InMemoryCategoryRepository)
        ensures
            r@ == Seq::<Category>::empty(),
            r.wf(),
    {
        InMemoryCategoryRepository { table: Table::new() }
    }

    /// Stores a new category; fails when one with the same identifier is stored.
    pub fn save(&mut self, category: &Category) -> (r: Result<(), DomainError>)
        requires
            old(self).wf(),
        ensures
            final(self).wf(),
            r is Ok <==> !has_key(old(self)@, category.key()),
            r is Ok ==> final(self)@ == old(self)@.push(*category),
            r matches Err(e) ==> final(self)@ == old(self)@ && e is Storage
                && e.message() == duplicate_category_message(),
    {
        if self.table.insert(category.duplicate()) {
            Ok(())
        } else {
            Err(StorageError::Query("UNIQUE constraint failed: categories.id".to_string()).into_domain())
        }
    }

    /// The category with identifier `id`, unless there is none or it is deleted.
    pub fn find_by_id(&self, id: EntityId) -> (r: Result<Option<Category>, DomainError>)
        requires
            self.wf(),
        ensures
            r == Ok::<Option<Category>, DomainError>(lookup_live(self@, id)),
    {
        Ok(self.table.find_live(id))
    }

    /// The live categories of a user, in storage order.
    pub fn find_by_user_id(&self, user_id: EntityId) -> (r: Result<Vec<Category>, DomainError>)
        ensures
            r matches Ok(v) && v@ == self@.filter(accepted(CategoriesOf { user_id })),
    {
        Ok(self.table.select(&CategoriesOf { user_id }))
    }

    /// Applies an update: the stored category with the same identifier takes the name,
    /// icon, status, version and times of `category` (not its owner or creation time).
    /// Nothing changes when no category has that identifier.
    pub fn update(&mut self, category: &Category) -> (r: Result<(), DomainError>)
        requires
            old(self).wf(),
        ensures
            final(self).wf(),
            r is Ok,
            final(self)@ == rows_revised(old(self)@, *category),
    {
        self.table.revise_key(category);
        Ok(())
    }

    /// Soft-deletes the category with identifier `id` now: it is marked deleted and updated
    /// at the current time and awaits synchronization. Nothing changes when no category
    /// has that identifier.
    pub fn delete(&mut self, id: EntityId) -> (r: Result<(), DomainError>)
        requires
            old(self).wf(),
        ensures
            final(self).wf(),
            r is Ok,
            exists|now: Timestamp| final(self)@ == rows_retired(old(self)@, id, now),
    {
        let now = Timestamp::now();
        self.table.retire_key(id, now);
        assert(self@ == rows_retired(old(self)@, id, now));
        Ok(())
    }

    /// The categories awaiting synchronization (deleted ones included), in storage order.
    pub fn find_pending_sync(&self) -> (r: Result<Vec<Category>, DomainError>)
        ensures
            r matches Ok(v) && v@ == self@.filter(accepted(PendingCategories)),
    {
        Ok(self.table.select(&PendingCategories))
    }
}

} // verus!
