//! Recording, editing and listing transactions, and transfers between accounts.
use vstd::prelude::*;
use crate::entities::common::{BaseEntity, SyncStatus, TransactionType};
use crate::entities::pagination::{PageRequest, PaginatedResult};
use crate::entities::transaction::{Transaction, non_positive_amount_message};
use crate::errors::{DomainError, not_found, not_found_text, validation};
use crate::ids::EntityId;
use crate::queries::{page_of, sum_by};
use crate::records::lookup;
use crate::repositories::transaction_repository::{
    InMemoryTransactionRepository, IncomeOf, OutflowOf, account_criteria, duplicate_transaction_message,
    fits_i64, integer_overflow_message, pending, range_criteria, rows_after_update, search_results, weight_of,
};
use crate::time::Timestamp;

verus! {

/// Message of the error for editing a deleted transaction.
pub open spec fn edit_deleted_message() -> Seq<char> {
    "Cannot edit a deleted transaction"@
}

/// Message of the error for a period that ends before it starts.
pub open spec fn date_order_message() -> Seq<char> {
    "Start date must be before end date"@
}

/// Message of the error for a transfer from an account to itself.
pub open spec fn same_account_message() -> Seq<char> {
    "Cannot transfer to the same account"@
}

/// The description of the incoming side of a transfer described as `description`.
pub open spec fn transfer_description(description: Seq<char>) -> Seq<char> {
    "Transfer: "@ + description
}

/// Whether `t` is a new transaction with the given details: awaiting synchronization, at
/// version 1, not deleted and not yet paired.
pub open spec fn fresh_transaction(
    t: Transaction,
    account_id: EntityId,
    category_id: EntityId,
    amount: i64,
    transaction_type: TransactionType,
    description: Seq<char>,
    date: Timestamp,
) -> bool {
    &&& t.account_id == account_id
    &&& t.category_id == category_id
    &&& t.amount == amount
    &&& t.transaction_type == transaction_type
    &&& t.description@ == description
    &&& t.date == date
    &&& t.sync_status == SyncStatus::Pending
    &&& t.version == 1
    &&& t.base.deleted_at is None
}

/// The transaction `t` edited at instant `at`.
pub open spec fn edited(
    t: Transaction,
    amount: i64,
    transaction_type: TransactionType,
    description: String,
    category_id: EntityId,
    date: Timestamp,
    at: Timestamp,
) -> Transaction {
    Transaction {
        amount,
        transaction_type,
        description,
        category_id,
        date,
        sync_status: SyncStatus::Pending,
        version: (t.version + 1) as i64,
        base: BaseEntity { updated_at: at, ..t.base },
        ..t
    }
}

/// The transaction `t` soft-deleted at instant `at`.
pub open spec fn deleted_transaction(t: Transaction, at: Timestamp) -> Transaction {
    Transaction {
        sync_status: SyncStatus::Pending,
        version: (t.version + 1) as i64,
        base: BaseEntity { updated_at: at, deleted_at: Some(at), ..t.base },
        ..t
    }
}

/// Operations on transactions.
pub struct TransactionUseCases<'a> {
    pub repo: &'a mut InMemoryTransactionRepository,
}

impl<'a> TransactionUseCases<'a> {
    /// Operations over the transactions of `repo`.
    pub fn new(repo: &'a mut InMemoryTransactionRepository) -> (r: TransactionUseCases<'a>)
        ensures
            *r.repo == *old(repo),
            *final(r.repo) == *final(repo),
    {
        TransactionUseCases { repo }
    }

    /// Records a new transaction; the amount must be positive.
    pub fn create_transaction(
        &mut self,
        account_id: EntityId,
        category_id: EntityId,
        amount: i64,
        transaction_type: TransactionType,
        description: String,
        date: Timestamp,
    ) -> (r: Result<Transaction, DomainError>)
        requires
            old(self).repo.wf(),
        ensures
            final(self).repo.wf(),
            *final(final(self).repo) == *final(old(self).repo),
            amount <= 0 ==> (r matches Err(e) && e is InvalidAmount && e.message() == non_positive_amount_message()),
            amount > 0 ==> (r is Ok || (r matches Err(e) && e is Storage && e.message() == duplicate_transaction_message())),
            amount > 0 && old(self).repo@.len() == 0 ==> r is Ok,
            r matches Ok(t) ==> fresh_transaction(t, account_id, category_id, amount, transaction_type, description@, date)
                && t.linked_transaction_id is None && final(self).repo@ == old(self).repo@.push(t),
            r is Err ==> final(self).repo@ == old(self).repo@,
    {
        let transaction = Transaction::new(account_id, category_id, amount, transaction_type, description, date)?;
        self.repo.save(&transaction)?;
        Ok(transaction)
    }

    /// Edits a stored transaction that is not deleted: the amount (which must be positive),
    /// type, description, category and date change; it then awaits synchronization, its
    /// version grows by one and it is updated now. Returns the transaction as stored.
    pub fn edit_transaction(
        &mut self,
        id: EntityId,
        amount: i64,
        transaction_type: TransactionType,
        description: String,
        category_id: EntityId,
        date: Timestamp,
    ) -> (r: Result<Transaction, DomainError>)
        requires
            old(self).repo.wf(),
            lookup(old(self).repo@, id) matches Some(t) ==> t.version < i64::MAX,
        ensures
            final(self).repo.wf(),
            *final(final(self).repo) == *final(old(self).repo),
            lookup(old(self).repo@, id) is None ==> (r matches Err(e) && e is NotFound
                && e.message() == not_found_text("Transaction"@, id)),
            lookup(old(self).repo@, id) matches Some(t) && t.deleted() ==> (r matches Err(e) && e is Validation
                && e.message() == edit_deleted_message()),
            lookup(old(self).repo@, id) matches Some(t) && !t.deleted() && amount <= 0 ==> (r matches Err(e)
                && e is InvalidAmount && e.message() == non_positive_amount_message()),
            lookup(old(self).repo@, id) matches Some(t) && !t.deleted() && amount > 0 ==> r is Ok,
            r is Err ==> final(self).repo@ == old(self).repo@,
            r matches Ok(u) ==> ({
                let t = lookup(old(self).repo@, id)->Some_0;
                &&& u == edited(t, amount, transaction_type, description, category_id, date, u.base.updated_at)
                &&& final(self).repo@ == rows_after_update(old(self).repo@, u)
            }),
    {
        let mut transaction = match self.repo.find_by_id(id)? {
            Some(t) => t,
            None => {
                return Err(not_found("Transaction", id));
            },
        };
        if transaction.base.is_deleted() {
            return Err(validation("Cannot edit a deleted transaction"));
        }
        transaction.update(amount, transaction_type, description, category_id, date)?;
        self.repo.update(&transaction)?;
        Ok(transaction)
    }

    /// Soft-deletes a stored transaction: it is marked deleted now, awaits synchronization
    /// and its version grows by one. Fails when there is no such transaction.
    pub fn delete_transaction(&mut self, id: EntityId) -> (r: Result<(), DomainError>)
        requires
            old(self).repo.wf(),
            lookup(old(self).repo@, id) matches Some(t) ==> t.version < i64::MAX,
        ensures
            final(self).repo.wf(),
            *final(final(self).repo) == *final(old(self).repo),
            r is Ok <==> lookup(old(self).repo@, id) is Some,
            r matches Err(e) ==> e is NotFound && e.message() == not_found_text("Transaction"@, id)
                && final(self).repo@ == old(self).repo@,
            r is Ok ==> exists|at: Timestamp| final(self).repo@ == rows_after_update(
                old(self).repo@,
                deleted_transaction(lookup(old(self).repo@, id)->Some_0, at),
            ),
    {
        let mut transaction = match self.repo.find_by_id(id)? {
            Some(t) => t,
            None => {
                return Err(not_found("Transaction", id));
            },
        };
        transaction.soft_delete();
        self.repo.update(&transaction)?;
        assert(transaction == deleted_transaction(lookup(old(self).repo@, id)->Some_0, transaction.base.updated_at));
        Ok(())
    }

    /// Balance of an account: its live income minus its live expenses and outgoing
    /// transfers. Fails when a total or the balance is beyond `i64`.
    pub fn get_balance(&self, account_id: EntityId) -> (r: Result<i64, DomainError>)
        ensures
            ({
                let income = sum_by(old(self.repo)@, weight_of(IncomeOf { account_id }));
                let outflow = sum_by(old(self.repo)@, weight_of(OutflowOf { account_id }));
                &&& r is Ok <==> fits_i64(income) && fits_i64(outflow) && fits_i64(income - outflow)
                &&& r matches Ok(b) ==> b == income - outflow
                &&& r matches Err(e) ==> e is Storage && e.message() == integer_overflow_message()
            }),
    {
        self.repo.calculate_balance(account_id)
    }

    /// Live transactions of an account dated within `[from, to]`, latest date first; fails
    /// when `from` is after `to`.
    pub fn list_transactions_by_date_range(&self, account_id: EntityId, from: Timestamp, to: Timestamp)
        -> (r: Result<Vec<Transaction>, DomainError>)
        ensures
            from.unix() > to.unix() ==> (r matches Err(e) && e is Validation && e.message() == date_order_message()),
            from.unix() <= to.unix() ==> (r matches Ok(v) && v@ == search_results(old(self.repo)@, range_criteria(account_id, from, to))),
    {
        if from.is_after(&to) {
            return Err(validation("Start date must be before end date"));
        }
        self.repo.find_by_date_range(account_id, from, to)
    }

    /// One page of the live transactions of an account dated within `[from, to]`, latest
    /// date first; fails when `from` is after `to`.
    pub fn list_transactions_by_date_range_paginated(
        &self,
        account_id: EntityId,
        from: Timestamp,
        to: Timestamp,
        page: &PageRequest,
    ) -> (r: Result<PaginatedResult<Transaction>, DomainError>)
        ensures
            from.unix() > to.unix() ==> (r matches Err(e) && e is Validation && e.message() == date_order_message()),
            from.unix() <= to.unix() ==> (r matches Ok(p) && {
                let all = search_results(old(self.repo)@, range_criteria(account_id, from, to));
                &&& p.items@ == page_of(all, page.offset as int, page.limit as int)
                &&& p.total_count == all.len()
                &&& p.has_more == (page.offset + p.items@.len() < all.len())
            }),
    {
        if from.is_after(&to) {
            return Err(validation("Start date must be before end date"));
        }
        self.repo.find_by_date_range_paginated(account_id, from, to, page)
    }

    /// Live transactions of an account, latest date first.
    pub fn list_transactions(&self, account_id: EntityId) -> (r: Result<Vec<Transaction>, DomainError>)
        ensures
            r matches Ok(v) && v@ == search_results(old(self.repo)@, account_criteria(account_id)),
    {
        self.repo.find_by_account_id(account_id)
    }

    /// One page of the live transactions of an account, latest date first.
    pub fn list_transactions_paginated(&self, account_id: EntityId, page: &PageRequest)
        -> (r: Result<PaginatedResult<Transaction>, DomainError>)
        ensures
            r matches Ok(p) && {
                let all = search_results(old(self.repo)@, account_criteria(account_id));
                &&& p.items@ == page_of(all, page.offset as int, page.limit as int)
                &&& p.total_count == all.len()
                &&& p.has_more == (page.offset + p.items@.len() < all.len())
            },
    {
        self.repo.find_by_account_id_paginated(account_id, page)
    }

    /// The transactions awaiting synchronization (deleted ones included), in storage order.
    pub fn get_pending_sync(&self) -> (r: Result<Vec<Transaction>, DomainError>)
        ensures
            r matches Ok(v) && v@ == old(self.repo)@.filter(|t: Transaction| pending(t)),
    {
        self.repo.find_pending_sync()
    }

    /// Records a transfer between two different accounts as two paired transactions: an
    /// outgoing transfer from `from_account_id` with the description, and an income on
    /// `to_account_id` described as `Transfer: ` and the description, each naming the
    /// other. The amount must be positive.
    pub fn create_transfer(
        &mut self,
        from_account_id: EntityId,
        to_account_id: EntityId,
        category_id: EntityId,
        amount: i64,
        description: String,
        date: Timestamp,
    ) -> (r: Result<(Transaction, Transaction), DomainError>)
        requires
            old(self).repo.wf(),
        ensures
            final(self).repo.wf(),
            *final(final(self).repo) == *final(old(self).repo),
            from_account_id == to_account_id ==> (r matches Err(e) && e is Validation
                && e.message() == same_account_message() && final(self).repo@ == old(self).repo@),
            from_account_id != to_account_id && amount <= 0 ==> (r matches Err(e) && e is InvalidAmount
                && e.message() == non_positive_amount_message() && final(self).repo@ == old(self).repo@),
            from_account_id != to_account_id && amount > 0 ==> (r is Ok || (r matches Err(e) && e is Storage
                && e.message() == duplicate_transaction_message())),
            from_account_id != to_account_id && amount > 0 && old(self).repo@.len() == 0 ==> (r is Ok
                || (final(self).repo@.len() == 1 && fresh_transaction(final(self).repo@[0], from_account_id,
                    category_id, amount, TransactionType::Transfer, description@, date))),
            r matches Ok((out, inc)) ==> {
                &&& fresh_transaction(out, from_account_id, category_id, amount, TransactionType::Transfer, description@, date)
                &&& fresh_transaction(inc, to_account_id, category_id, amount, TransactionType::Income,
                    transfer_description(description@), date)
                &&& out.linked_transaction_id == Some(inc.base.id)
                &&& inc.linked_transaction_id == Some(out.base.id)
                &&& final(self).repo@ == old(self).repo@.push(out).push(inc)
            },
    {
        if from_account_id == to_account_id {
            return Err(validation("Cannot transfer to the same account"));
        }
        let mut outgoing = Transaction::new(
            from_account_id,
            category_id,
            amount,
            TransactionType::Transfer,
            description.clone(),
            date,
        )?;
        let mut incoming_description = "Transfer: ".to_string();
        incoming_description.append(description.as_str());
        let mut incoming = Transaction::new(
            to_account_id,
            category_id,
            amount,
            TransactionType::Income,
            incoming_description,
            date,
        )?;
        outgoing.linked_transaction_id = Some(incoming.base.id);
        incoming.linked_transaction_id = Some(outgoing.base.id);
        self.repo.save(&outgoing)?;
        self.repo.save(&incoming)?;
        Ok((outgoing, incoming))
    }

    /// The other side of a transfer: the stored transaction that the transaction with
    /// identifier `id` names, if it names one and it is stored. Fails when there is no
    /// transaction with identifier `id`.
    pub fn get_linked_transaction(&self, id: EntityId) -> (r: Result<Option<Transaction>, DomainError>)
        requires
            self.repo.wf(),
        ensures
            lookup(old(self.repo)@, id) is None ==> (r matches Err(e) && e is NotFound
                && e.message() == not_found_text("Transaction"@, id)),
            lookup(old(self.repo)@, id) matches Some(t) ==> r == Ok::<Option<Transaction>, DomainError>(
                match t.linked_transaction_id {
                    Some(other) => lookup(old(self.repo)@, other),
                    None => None,
                },
            ),
    {
        let transaction = match self.repo.find_by_id(id)? {
            Some(t) => t,
            None => {
                return Err(not_found("Transaction", id));
            },
        };
        match transaction.linked_transaction_id {
            Some(other) => self.repo.find_by_id(other),
            None => Ok(None),
        }
    }
}

} // verus!
