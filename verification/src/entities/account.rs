//! Financial accounts.
use vstd::prelude::*;
use crate::entities::common::{BaseEntity, SyncStatus};
use crate::ids::EntityId;

verus! {

/// A financial account (bank account, wallet, credit card, ...).
#[derive(Debug, Clone)]
pub struct Account {
    pub base: BaseEntity,
    pub user_id: EntityId,
    pub name: String,
    pub currency: String,
    pub sync_status: SyncStatus,
    pub version: i64,
}

impl Account {
    /// A new account awaiting synchronization, at version 1.
    pub fn new(user_id: EntityId, name: String, currency: String) -> (r: Account)
        ensures
            r.user_id == user_id,
            r.name == name,
            r.currency == currency,
            r.sync_status == SyncStatus::Pending,
            r.version == 1,
            r.base.deleted_at is None,
            r.base.created_at == r.base.updated_at,
    {
        Account {
            base: BaseEntity::new(),
            user_id,
            name,
            currency,
            sync_status: SyncStatus::Pending,
            version: 1,
        }
    }

    /// The account's identifier.
    pub fn id(&self) -> (r: EntityId)
        ensures
            r == self.base.id,
    {
        self.base.id
    }

    /// Marks the account as synchronized with the server.
    pub fn mark_synced(&mut self)
        ensures
            *final(self) == (Account {
                sync_status: SyncStatus::Synced,
                base: BaseEntity { updated_at: final(self).base.updated_at, ..old(self).base },
                ..*old(self)
            }),
    {
        self.sync_status = SyncStatus::Synced;
        self.base.touch();
    }

    /// Marks the account as changed locally and awaiting synchronization.
    pub fn mark_pending(&mut self)
        ensures
            *final(self) == (Account {
                sync_status: SyncStatus::Pending,
                base: BaseEntity { updated_at: final(self).base.updated_at, ..old(self).base },
                ..*old(self)
            }),
    {
        self.sync_status = SyncStatus::Pending;
        self.base.touch();
    }

    /// A copy of the account.
    pub fn duplicate(&self) -> (r: Account)
        ensures
            r == *self,
    {
        Account {
            base: self.base,
            user_id: self.user_id,
            name: self.name.clone(),
            currency: self.currency.clone(),
            sync_status: self.sync_status,
            version: self.version,
        }
    }
}

} // verus!
