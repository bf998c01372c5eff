//! Synchronization status, transaction type and the fields every entity carries.
use vstd::prelude::*;
use crate::ids::{EntityId, new_entity_id};
use crate::text::text_eq;
use crate::time::Timestamp;

verus! {

/// Synchronization status for offline-first tracking.
#[derive(Debug, Clone, Copy, PartialEq, Eq, Structural)]
pub enum SyncStatus {
    Pending,
    Synced,
    Conflicted,
}

impl SyncStatus {
    /// The lower-case name of the status.
    pub open spec fn text(self) -> Seq<char> {
        match self {
            SyncStatus::Pending => "pending"@,
            SyncStatus::Synced => "synced"@,
            SyncStatus::Conflicted => "conflicted"@,
        }
    }

    /// The status named by `s`, if any.
    pub open spec fn parse(s: Seq<char>) -> Option<SyncStatus> {
        if s == "pending"@ {
            Some(SyncStatus::Pending)
        } else if s == "synced"@ {
            Some(SyncStatus::Synced)
        } else if s == "conflicted"@ {
            Some(SyncStatus::Conflicted)
        } else {
            None
        }
    }

    /// The lower-case name of the status.
    pub fn as_str(&self) -> (r: &'static str)
        ensures
            r@ == self.text(),
    {
        match self {
            SyncStatus::Pending => "pending",
            SyncStatus::Synced => "synced",
            SyncStatus::Conflicted => "conflicted",
        }
    }

    /// The lower-case name of the status, as an owned string.
    pub fn to_string(&self) -> (r: String)
        ensures
            r@ == self.text(),
    {
        self.as_str().to_string()
    }

    /// Reads a status from its lower-case name.
    pub fn from_str(s: &str) -> (r: Option<SyncStatus>)
        ensures
            r == SyncStatus::parse(s@),
    {
        if text_eq(s, "pending") {
            Some(SyncStatus::Pending)
        } else if text_eq(s, "synced") {
            Some(SyncStatus::Synced)
        } else if text_eq(s, "conflicted") {
            Some(SyncStatus::Conflicted)
        } else {
            None
        }
    }
}

/// Reading back the name of a status gives the status.
pub proof fn lemma_sync_status_round_trip(s: SyncStatus)
    ensures
        SyncStatus::parse(s.text()) == Some(s),
{
    reveal_strlit("pending");
    reveal_strlit("synced");
    reveal_strlit("conflicted");
    assert("synced"@[0] != "pending"@[0]);
    assert("conflicted"@[0] != "pending"@[0]);
    assert("conflicted"@[0] != "synced"@[0]);
}

/// Transaction type.
#[derive(Debug, Clone, Copy, PartialEq, Eq, Structural)]
pub enum TransactionType {
    Expense,
    Income,
    Transfer,
}

impl TransactionType {
    /// The lower-case name of the type.
    pub open spec fn text(self) -> Seq<char> {
        match self {
            TransactionType::Expense => "expense"@,
            TransactionType::Income => "income"@,
            TransactionType::Transfer => "transfer"@,
        }
    }

    /// The type named by `s`, if any.
    pub open spec fn parse(s: Seq<char>) -> Option<TransactionType> {
        if s == "expense"@ {
            Some(TransactionType::Expense)
        } else if s == "income"@ {
            Some(TransactionType::Income)
        } else if s == "transfer"@ {
            Some(TransactionType::Transfer)
        } else {
            None
        }
    }

    /// The lower-case name of the type.
    pub fn as_str(&self) -> (r: &'static str)
        ensures
            r@ == self.text(),
    {
        match self {
            TransactionType::Expense => "expense",
            TransactionType::Income => "income",
            TransactionType::Transfer => "transfer",
        }
    }

    /// The lower-case name of the type, as an owned string.
    pub fn to_string(&self) -> (r: String)
        ensures
            r@ == self.text(),
    {
        self.as_str().to_string()
    }

    /// Reads a type from its lower-case name.
    pub fn from_str(s: &str) -> (r: Option<TransactionType>)
        ensures
            r == TransactionType::parse(s@),
    {
        if text_eq(s, "expense") {
            Some(TransactionType::Expense)
        } else if text_eq(s, "income") {
            Some(TransactionType::Income)
        } else if text_eq(s, "transfer") {
            Some(TransactionType::Transfer)
        } else {
            None
        }
    }
}

/// Reading back the name of a transaction type gives the type.
pub proof fn lemma_transaction_type_round_trip(t: TransactionType)
    ensures
        TransactionType::parse(t.text()) == Some(t),
{
    reveal_strlit("expense");
    reveal_strlit("income");
    reveal_strlit("transfer");
    assert("income"@[0] != "expense"@[0]);
    assert("transfer"@[0] != "expense"@[0]);
    assert("transfer"@[0] != "income"@[0]);
}

/// Fields shared by all entities.
#[derive(Debug, Clone, Copy, PartialEq, Eq, Structural)]
pub struct BaseEntity {
    pub id: EntityId,
    pub created_at: Timestamp,
    pub updated_at: Timestamp,
    pub deleted_at: Option<Timestamp>,
}

impl BaseEntity {
    /// Whether the entity is soft-deleted.
    pub open spec fn deleted(self) -> bool {
        self.deleted_at is Some
    }

    /// A fresh entity: new identifier, created and updated now, not deleted.
    pub fn new() -> (r: BaseEntity)
        ensures
            r.created_at == r.updated_at,
            r.deleted_at is None,
    {
        let now = Timestamp::now();
        BaseEntity { id: new_entity_id(), created_at: now, updated_at: now, deleted_at: None }
    }

    /// A fresh entity with the given identifier.
    pub fn with_id(id: EntityId) -> (r: BaseEntity)
        ensures
            r.id == id,
            r.created_at == r.updated_at,
            r.deleted_at is None,
    {
        let now = Timestamp::now();
        BaseEntity { id, created_at: now, updated_at: now, deleted_at: None }
    }

    /// Records a change: the update time becomes the current time.
    pub fn touch(&mut self)
        ensures
            final(self).id == old(self).id,
            final(self).created_at == old(self).created_at,
            final(self).deleted_at == old(self).deleted_at,
    {
        self.updated_at = Timestamp::now();
    }

    /// Marks the entity deleted now; the deletion time is also the update time.
    pub fn soft_delete(&mut self)
        ensures
            final(self).id == old(self).id,
            final(self).created_at == old(self).created_at,
            final(self).deleted_at == Some(final(self).updated_at),
    {
        let now = Timestamp::now();
        self.deleted_at = Some(now);
        self.updated_at = now;
    }

    /// Whether the entity is soft-deleted.
    pub fn is_deleted(&self) -> (r: bool)
        ensures
            r == self.deleted(),
    {
        self.deleted_at.is_some()
    }
}

impl Default for BaseEntity {
    fn default() -> (r: BaseEntity)
        ensures
            r.created_at == r.updated_at,
            r.deleted_at is None,
    {
        BaseEntity::new()
    }
}

} // verus!
