//! Transaction categories.
use vstd::prelude::*;
use crate::entities::common::{BaseEntity, SyncStatus};
use crate::ids::EntityId;

verus! {

/// A copy of an optional text.
pub fn duplicate_text(t: &Option<String>) -> (r: Option<String>)
    ensures
        r == *t,
{
    match t {
        Some(s) => Some(s.clone()),
        None => None,
    }
}

/// A transaction category (Food, Transportation, Salary, ...).
#[derive(Debug, Clone)]
pub struct Category {
    pub base: BaseEntity,
    pub user_id: EntityId,
    pub name: String,
    pub icon: Option<String>,
    pub sync_status: SyncStatus,
    pub version: i64,
}

impl Category {
    /// A new category awaiting synchronization, at version 1.
    pub fn new(user_id: EntityId, name: String, icon: Option<String>) -> (r: Category)
        ensures
            r.user_id == user_id,
            r.name == name,
            r.icon == icon,
            r.sync_status == SyncStatus::Pending,
            r.version == 1,
            r.base.deleted_at is None,
            r.base.created_at == r.base.updated_at,
    {
        Category {
            base: BaseEntity::new(),
            user_id,
            name,
            icon,
            sync_status: SyncStatus::Pending,
            version: 1,
        }
    }

    /// The category's identifier.
    pub fn id(&self) -> (r: EntityId)
        ensures
            r == self.base.id,
    {
        self.base.id
    }

    /// Marks the category as synchronized with the server.
    pub fn mark_synced(&mut self)
        ensures
            *final(self) == (Category {
                sync_status: SyncStatus::Synced,
                base: BaseEntity { updated_at: final(self).base.updated_at, ..old(self).base },
                ..*old(self)
            }),
    {
        self.sync_status = SyncStatus::Synced;
        self.base.touch();
    }

    /// Marks the category as changed locally and awaiting synchronization.
    pub fn mark_pending(&mut self)
        ensures
            *final(self) == (Category {
                sync_status: SyncStatus::Pending,
                base: BaseEntity { updated_at: final(self).base.updated_at, ..old(self).base },
                ..*old(self)
            }),
    {
        self.sync_status = SyncStatus::Pending;
        self.base.touch();
    }

    /// A copy of the category.
    pub fn duplicate(&self) -> (r: Category)
        ensures
            r == *self,
    {
        Category {
            base: self.base,
            user_id: self.user_id,
            name: self.name.clone(),
            icon: duplicate_text(&self.icon),
            sync_status: self.sync_status,
            version: self.version,
        }
    }
}

} // verus!
