//! Stored accounts.
use vstd::prelude::*;
use crate::entities::account::Account;
use crate::entities::common::{BaseEntity, SyncStatus};
use crate::errors::{DomainError, StorageError, query_error_text};
use crate::ids::EntityId;
use crate::records::{
    Filter, Record, Retirable, Revisable, Table, accepted, has_key, lookup_live, rows_retired, rows_revised, unique_keys};
use crate::time::Timestamp;

verus! {

impl Record for Account {
    open spec fn key(&self) -> EntityId {
        self.base.id
    }

    fn record_id(&self) -> (r: EntityId) {
        self.base.id
    }

    fn copy_record(&self) -> (r: Account) {
        self.duplicate()
    }
}

impl Revisable for Account {
    /// An update keeps the identifier, the owner and the creation time.
    open spec fn revised(stored: Account, incoming: Account) -> Account {
        Account {
            base: BaseEntity { id: stored.base.id, created_at: stored.base.created_at, ..incoming.base },
            user_id: stored.user_id,
            ..incoming
        }
    }

    fn revise(&self, incoming: &Account) -> (r: Account) {
        let mut r = incoming.duplicate();
        r.base.id = self.base.id;
        r.base.created_at = self.base.created_at;
        r.user_id = self.user_id;
        r
    }

    proof fn lemma_revised_key(stored: Account, incoming: Account) {
    }
}

impl Retirable for Account {
    open spec fn retired(&self) -> bool {
        self.base.deleted_at is Some
    }

    /// Soft deletion marks the account deleted and updated at `now`, awaiting synchronization.
    open spec fn retired_at(self, now: Timestamp) -> Account {
        Account {
            base: BaseEntity { deleted_at: Some(now), updated_at: now, ..self.base },
            sync_status: SyncStatus::Pending,
            ..self
        }
    }

    fn is_retired(&self) -> (r: bool) {
        self.base.is_deleted()
    }

    fn retire(&self, now: Timestamp) -> (r: Account) {
        let mut r = self.duplicate();
        r.base.deleted_at = Some(now);
        r.base.updated_at = now;
        r.sync_status = SyncStatus::Pending;
        r
    }

    proof fn lemma_retired_key(t: Account, now: Timestamp) {
    }
}

/// The live accounts of one user.
pub struct AccountsOf {
    pub user_id: EntityId,
}

impl Filter<Account> for AccountsOf {
    open spec fn accepts(&self, c: Account) -> bool {
        c.user_id == self.user_id && !c.retired()
    }

    fn test(&self, c: &Account) -> (r: bool) {
        c.user_id == self.user_id && !c.is_retired()
    }
}

/// The accounts awaiting synchronization.
pub struct PendingAccounts;

impl Filter<Account> for PendingAccounts {
    open spec fn accepts(&self, c: Account) -> bool {
        c.sync_status == SyncStatus::Pending
    }

    fn test(&self, c: &Account) -> (r: bool) {
        c.sync_status == SyncStatus::Pending
    }
}

/// Message of the error for a account whose identifier is already stored.
pub open spec fn duplicate_account_message() -> Seq<char> {
    query_error_text("UNIQUE constraint failed: accounts.id"@)
}

/// Stored accounts, in insertion order, identifiers unique.
pub struct InMemoryAccountRepository {
    table: Table<Account>,
}

impl View for InMemoryAccountRepository {
    type V = Seq<Account>;

    closed spec fn view(&self) -> Seq<Account> {
        self.table@
    }
}

impl InMemoryAccountRepository {
    /// Whether the stored accounts have unique identifiers.
    pub open spec fn wf(&self) -> bool {
        unique_keys(self@)
    }

    /// The stored records, in storage order (deleted ones included).
    pub fn records(&self) -> (r: &Vec<Account>)
        ensures
            r@ == self@,
    {
        self.table.records()
    }

    /// An empty repository.
    pub fn new() -> (r: InMemoryAccountRepository)
        ensures
            r@ == Seq::<Account>::empty(),
            r.wf(),
    {
        InMemoryAccountRepository { table: Table::new() }
    }

    /// Stores a new account; fails when one with the same identifier is stored.
    pub fn save(&mut self, account: &Account) -> (r: Result<(), DomainError>)
        requires
            old(self).wf(),
        ensures
            final(self).wf(),
            r is Ok <==> !has_key(old(self)@, account.key()),
            r is Ok ==> final(self)@ == old(self)@.push(*account),
            r matches Err(e) ==> final(self)@ == old(self)@ && e is Storage
                && e.message() == duplicate_account_message(),
    {
        if self.table.insert(account.duplicate()) {
            Ok(())
        } else {
            Err(StorageError::Query("UNIQUE constraint failed: accounts.id".to_string()).into_domain())
        }
    }

    /// The account with identifier `id`, unless there is none or it is deleted.
    pub fn find_by_id(&self, id: EntityId) -> (r: Result<Option<Account>, DomainError>)
        requires
            self.wf(),
        ensures
            r == Ok::<Option<Account>, DomainError>(lookup_live(self@, id)),
    {
        Ok(self.table.find_live(id))
    }

    /// The live accounts of a user, in storage order.
    pub fn find_by_user_id(&self, user_id: EntityId) -> (r: Result<Vec<Account>, DomainError>)
        ensures
            r matches Ok(v) && v@ == self@.filter(accepted(AccountsOf { user_id })),
    {
        Ok(self.table.select(&AccountsOf { user_id }))
    }

    /// Applies an update: the stored account with the same identifier takes the name,
    /// currency, status, version and times of `account` (not its owner or creation time).
    /// Nothing changes when no account has that identifier.
    pub fn update(&mut self, account: &Account) -> (r: Result<(), DomainError>)
        requires
            old(self).wf(),
        ensures
            final(self).wf(),
            r is Ok,
            final(self)@ == rows_revised(old(self)@, *account),
    {
        self.table.revise_key(account);
        Ok(())
    }

    /// Soft-deletes the account with identifier `id` now: it is marked deleted and updated
    /// at the current time and awaits synchronization. Nothing changes when no account
    /// has that identifier.
    pub fn delete(&mut self, id: EntityId) -> (r: Result<(), DomainError>)
        requires
            old(self).wf(),
        ensures
            final(self).wf(),
            r is Ok,
            exists|now: Timestamp| final(self)@ == rows_retired(old(self)@, id, now),
    {
        let now = Timestamp::now();
        self.table.retire_key(id, now);
        assert(self@ == rows_retired(old(self)@, id, now));
        Ok(())
    }

    /// The accounts awaiting synchronization (deleted ones included), in storage order.
    pub fn find_pending_sync(&self) -> (r: Result<Vec<Account>, DomainError>)
        ensures
            r matches Ok(v) && v@ == self@.filter(accepted(PendingAccounts)),
    {
        Ok(self.table.select(&PendingAccounts))
    }
}

} // verus!
