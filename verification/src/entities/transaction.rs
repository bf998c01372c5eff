//! Financial transactions.
use vstd::prelude::*;
use crate::entities::common::{BaseEntity, SyncStatus, TransactionType};
use crate::errors::DomainError;
use crate::ids::EntityId;
use crate::time::Timestamp;

verus! {

/// A financial transaction; the amount is in cents.
#[derive(Debug, Clone)]
pub struct Transaction {
    pub base: BaseEntity,
    pub account_id: EntityId,
    pub category_id: EntityId,
    pub amount: i64,
    pub transaction_type: TransactionType,
    pub description: String,
    pub date: Timestamp,
    /// For transfers: the paired transaction on the other account.
    pub linked_transaction_id: Option<EntityId>,
    pub sync_status: SyncStatus,
    pub version: i64,
}

/// Message of the error for a non-positive amount.
pub open spec fn non_positive_amount_message() -> Seq<char> {
    "Amount must be greater than zero"@
}

/// The signed effect of a transaction on its account's balance:
/// income adds, expenses and outgoing transfers subtract.
pub open spec fn signed_amount(kind: TransactionType, amount: i64) -> int {
    match kind {
        TransactionType::Income => amount as int,
        TransactionType::Expense => -amount,
        TransactionType::Transfer => -amount,
    }
}

impl Transaction {
    /// Whether the transaction is soft-deleted.
    pub open spec fn deleted(self) -> bool {
        self.base.deleted_at is Some
    }

    /// The signed effect of this transaction on its account's balance.
    pub open spec fn effect(self) -> int {
        signed_amount(self.transaction_type, self.amount)
    }

    /// Checks the amount: it must be strictly positive.
    fn validate_amount(amount: i64, _tx_type: TransactionType) -> (r: Result<(), DomainError>)
        ensures
            r is Ok <==> amount > 0,
            r matches Err(e) ==> e == DomainError::InvalidAmount(e->InvalidAmount_0)
                && e.message() == non_positive_amount_message(),
    {
        if amount <= 0 {
            return Err(DomainError::InvalidAmount("Amount must be greater than zero".to_string()));
        }
        Ok(())
    }

    /// A new transaction awaiting synchronization, at version 1; the amount must be positive.
    pub fn new(
        account_id: EntityId,
        category_id: EntityId,
        amount: i64,
        transaction_type: TransactionType,
        description: String,
        date: Timestamp,
    ) -> (r: Result<Transaction, DomainError>)
        ensures
            r is Ok <==> amount > 0,
            r matches Err(e) ==> e is InvalidAmount && e.message() == non_positive_amount_message(),
            r matches Ok(t) ==> {
                &&& t.account_id == account_id
                &&& t.category_id == category_id
                &&& t.amount == amount
                &&& t.transaction_type == transaction_type
                &&& t.description == description
                &&& t.date == date
                &&& t.linked_transaction_id is None
                &&& t.sync_status == SyncStatus::Pending
                &&& t.version == 1
                &&& t.base.deleted_at is None
                &&& t.base.created_at == t.base.updated_at
            },
    {
        Self::validate_amount(amount, transaction_type)?;
        Ok(Transaction {
            base: BaseEntity::new(),
            account_id,
            category_id,
            amount,
            transaction_type,
            description,
            date,
            linked_transaction_id: None,
            sync_status: SyncStatus::Pending,
            version: 1,
        })
    }

    /// The transaction's identifier.
    pub fn id(&self) -> (r: EntityId)
        ensures
            r == self.base.id,
    {
        self.base.id
    }

    /// Changes the editable fields; the amount must be positive. On success the
    /// transaction awaits synchronization and its version grows by one.
    pub fn update(
        &mut self,
        amount: i64,
        transaction_type: TransactionType,
        description: String,
        category_id: EntityId,
        date: Timestamp,
    ) -> (r: Result<(), DomainError>)
        requires
            amount > 0 ==> old(self).version < i64::MAX,
        ensures
            r is Ok <==> amount > 0,
            r matches Err(e) ==> e is InvalidAmount && e.message() == non_positive_amount_message()
                && *final(self) == *old(self),
            r is Ok ==> *final(self) == (Transaction {
                amount,
                transaction_type,
                description,
                category_id,
                date,
                sync_status: SyncStatus::Pending,
                version: (old(self).version + 1) as i64,
                base: BaseEntity { updated_at: final(self).base.updated_at, ..old(self).base },
                ..*old(self)
            }),
    {
        Self::validate_amount(amount, transaction_type)?;
        self.amount = amount;
        self.transaction_type = transaction_type;
        self.description = description;
        self.category_id = category_id;
        self.date = date;
        self.sync_status = SyncStatus::Pending;
        self.version = self.version + 1;
        self.base.touch();
        Ok(())
    }

    /// Soft-deletes the transaction: it awaits synchronization and its version grows by one.
    pub fn soft_delete(&mut self)
        requires
            old(self).version < i64::MAX,
        ensures
            final(self).base.deleted_at == Some(final(self).base.updated_at),
            *final(self) == (Transaction {
                sync_status: SyncStatus::Pending,
                version: (old(self).version + 1) as i64,
                base: BaseEntity {
                    updated_at: final(self).base.updated_at,
                    deleted_at: final(self).base.deleted_at,
                    ..old(self).base
                },
                ..*old(self)
            }),
    {
        self.base.soft_delete();
        self.sync_status = SyncStatus::Pending;
        self.version = self.version + 1;
    }

    /// Marks the transaction as synchronized with the server.
    pub fn mark_synced(&mut self)
        ensures
            *final(self) == (Transaction {
                sync_status: SyncStatus::Synced,
                base: BaseEntity { updated_at: final(self).base.updated_at, ..old(self).base },
                ..*old(self)
            }),
    {
        self.sync_status = SyncStatus::Synced;
        self.base.touch();
    }

    /// Marks the transaction as changed locally and awaiting synchronization.
    pub fn mark_pending(&mut self)
        ensures
            *final(self) == (Transaction {
                sync_status: SyncStatus::Pending,
                base: BaseEntity { updated_at: final(self).base.updated_at, ..old(self).base },
                ..*old(self)
            }),
    {
        self.sync_status = SyncStatus::Pending;
        self.base.touch();
    }

    /// The signed effect of the transaction on its account's balance.
    pub fn balance_effect(&self) -> (r: i64)
        requires
            self.transaction_type != TransactionType::Income ==> self.amount > i64::MIN,
        ensures
            r == self.effect(),
    {
        match self.transaction_type {
            TransactionType::Income => self.amount,
            TransactionType::Expense => -self.amount,
            TransactionType::Transfer => -self.amount,
        }
    }

    /// A copy of the transaction.
    pub fn duplicate(&self) -> (r: Transaction)
        ensures
            r == *self,
    {
        Transaction {
            base: self.base,
            account_id: self.account_id,
            category_id: self.category_id,
            amount: self.amount,
            transaction_type: self.transaction_type,
            description: self.description.clone(),
            date: self.date,
            linked_transaction_id: self.linked_transaction_id,
            sync_status: self.sync_status,
            version: self.version,
        }
    }
}

} // verus!
