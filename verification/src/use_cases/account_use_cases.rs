//! Managing accounts.
use vstd::prelude::*;
use crate::entities::account::Account;
use crate::entities::common::{BaseEntity, SyncStatus};
use crate::errors::{DomainError, not_found, not_found_text, validation};
use crate::ids::EntityId;
use crate::records::{accepted, lookup_live, rows_revised};
use crate::repositories::account_repository::{AccountsOf, InMemoryAccountRepository, duplicate_account_message};
use crate::text::{blank, is_blank};
use crate::time::Timestamp;

verus! {

/// Message of the error for a blank account name.
pub open spec fn account_name_message() -> Seq<char> {
    "Account name cannot be empty"@
}

/// Message of the error for a blank currency.
pub open spec fn currency_message() -> Seq<char> {
    "Currency cannot be empty"@
}

/// The account after a change made through the use cases: awaiting synchronization, its
/// version one higher, updated at `at`.
pub open spec fn changed_account(a: Account, at: Timestamp) -> Account {
    Account {
        sync_status: SyncStatus::Pending,
        version: (a.version + 1) as i64,
        base: BaseEntity { updated_at: at, ..a.base },
        ..a
    }
}

/// The account soft-deleted at `at` through the use cases.
pub open spec fn deleted_account(a: Account, at: Timestamp) -> Account {
    Account { base: BaseEntity { deleted_at: Some(at), ..changed_account(a, at).base }, ..changed_account(a, at) }
}

/// Operations on accounts.
pub struct AccountUseCases<'a> {
    pub repo: &'a mut InMemoryAccountRepository,
}

impl<'a> AccountUseCases<'a> {
    /// Operations over the accounts of `repo`.
    pub fn new(repo: &'a mut InMemoryAccountRepository) -> (r: AccountUseCases<'a>)
        ensures
            *r.repo == *old(repo),
            *final(r.repo) == *final(repo),
    {
        AccountUseCases { repo }
    }

    /// Creates and stores an account awaiting synchronization; the name and the currency
    /// must not be blank.
    pub fn create_account(&mut self, user_id: EntityId, name: String, currency: String) -> (r: Result<Account, DomainError>)
        requires
            old(self).repo.wf(),
        ensures
            final(self).repo.wf(),
            *final(final(self).repo) == *final(old(self).repo),
            blank(name@) ==> (r matches Err(e) && e is Validation && e.message() == account_name_message()),
            !blank(name@) && blank(currency@) ==> (r matches Err(e) && e is Validation && e.message() == currency_message()),
            !blank(name@) && !blank(currency@) ==> (r is Ok || (r matches Err(e) && e is Storage
                && e.message() == duplicate_account_message())),
            !blank(name@) && !blank(currency@) && old(self).repo@.len() == 0 ==> r is Ok,
            r matches Ok(a) ==> a.user_id == user_id && a.name == name && a.currency == currency
                && a.sync_status == SyncStatus::Pending && a.version == 1 && a.base.deleted_at is None
                && final(self).repo@ == old(self).repo@.push(a),
            r is Err ==> final(self).repo@ == old(self).repo@,
    {
        if is_blank(name.as_str()) {
            return Err(validation("Account name cannot be empty"));
        }
        if is_blank(currency.as_str()) {
            return Err(validation("Currency cannot be empty"));
        }
        let account = Account::new(user_id, name, currency);
        self.repo.save(&account)?;
        Ok(account)
    }

    /// The live account with identifier `id`; fails when there is none.
    pub fn get_account(&self, id: EntityId) -> (r: Result<Account, DomainError>)
        requires
            self.repo.wf(),
        ensures
            r is Ok <==> lookup_live(old(self.repo)@, id) is Some,
            r matches Ok(a) ==> lookup_live(old(self.repo)@, id) == Some(a),
            r matches Err(e) ==> e is NotFound && e.message() == not_found_text("Account"@, id),
    {
        match self.repo.find_by_id(id)? {
            Some(a) => Ok(a),
            None => Err(not_found("Account", id)),
        }
    }

    /// The live accounts of a user, in storage order.
    pub fn list_accounts(&self, user_id: EntityId) -> (r: Result<Vec<Account>, DomainError>)
        ensures
            r matches Ok(v) && v@ == old(self.repo)@.filter(accepted(AccountsOf { user_id })),
    {
        self.repo.find_by_user_id(user_id)
    }

    /// Soft-deletes the live account with identifier `id`: it is marked deleted now, awaits
    /// synchronization and its version grows by one. Fails when there is no such account.
    pub fn delete_account(&mut self, id: EntityId) -> (r: Result<(), DomainError>)
        requires
            old(self).repo.wf(),
            lookup_live(old(self).repo@, id) matches Some(a) ==> a.version < i64::MAX,
        ensures
            final(self).repo.wf(),
            *final(final(self).repo) == *final(old(self).repo),
            r is Ok <==> lookup_live(old(self).repo@, id) is Some,
            r matches Err(e) ==> e is NotFound && e.message() == not_found_text("Account"@, id)
                && final(self).repo@ == old(self).repo@,
            r is Ok ==> exists|at: Timestamp| final(self).repo@ == rows_revised(
                old(self).repo@,
                deleted_account(lookup_live(old(self).repo@, id)->Some_0, at),
            ),
    {
        let mut account = self.get_account(id)?;
        account.base.soft_delete();
        account.sync_status = SyncStatus::Pending;
        account.version = account.version + 1;
        self.repo.update(&account)?;
        assert(account == deleted_account(lookup_live(old(self).repo@, id)->Some_0, account.base.updated_at));
        Ok(())
    }

    /// Renames the live account with identifier `id` and/or changes its currency (each when
    /// given, and then not blank); the account then awaits synchronization, its version
    /// grows by one and it is updated now. Returns the account as stored.
    pub fn update_account(&mut self, id: EntityId, name: Option<String>, currency: Option<String>)
        -> (r: Result<Account, DomainError>)
        requires
            old(self).repo.wf(),
            lookup_live(old(self).repo@, id) matches Some(a) ==> a.version < i64::MAX,
        ensures
            final(self).repo.wf(),
            *final(final(self).repo) == *final(old(self).repo),
            lookup_live(old(self).repo@, id) is None ==> (r matches Err(e) && e is NotFound
                && e.message() == not_found_text("Account"@, id)),
            lookup_live(old(self).repo@, id) is Some && (name matches Some(n) && blank(n@)) ==> (r matches Err(e)
                && e is Validation && e.message() == account_name_message()),
            lookup_live(old(self).repo@, id) is Some && !(name matches Some(n) && blank(n@))
                && (currency matches Some(c) && blank(c@)) ==> (r matches Err(e) && e is Validation
                && e.message() == currency_message()),
            r is Err ==> final(self).repo@ == old(self).repo@,
            r matches Ok(a) ==> ({
                let stored = lookup_live(old(self).repo@, id)->Some_0;
                &&& lookup_live(old(self).repo@, id) is Some
                &&& a == changed_account(Account {
                    name: match name { Some(n) => n, None => stored.name },
                    currency: match currency { Some(c) => c, None => stored.currency },
                    ..stored
                }, a.base.updated_at)
                &&& final(self).repo@ == rows_revised(old(self).repo@, a)
            }),
            lookup_live(old(self).repo@, id) is Some && !(name matches Some(n) && blank(n@))
                && !(currency matches Some(c) && blank(c@)) ==> r is Ok,
    {
        let mut account = self.get_account(id)?;
        let ghost stored = account;
        if let Some(n) = name {
            if is_blank(n.as_str()) {
                return Err(validation("Account name cannot be empty"));
            }
            account.name = n;
        }
        if let Some(c) = currency {
            if is_blank(c.as_str()) {
                return Err(validation("Currency cannot be empty"));
            }
            account.currency = c;
        }
        account.base.touch();
        account.sync_status = SyncStatus::Pending;
        account.version = account.version + 1;
        self.repo.update(&account)?;
        Ok(account)
    }
}

} // verus!
