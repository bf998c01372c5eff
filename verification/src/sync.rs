//! Offline-first synchronization: collecting pending changes, marking what the server
//! accepted, and resolving conflicts with the server by last write wins.
use vstd::prelude::*;
use crate::entities::account::Account;
use crate::entities::category::Category;
use crate::entities::common::{BaseEntity, SyncStatus};
use crate::entities::transaction::Transaction;
use crate::errors::DomainError;
use crate::ids::{EntityId, parse_entity_id, uuid_parse};
use crate::records::{accepted, lookup, lookup_live, rows_revised};
use crate::repositories::account_repository::{InMemoryAccountRepository, PendingAccounts};
use crate::repositories::category_repository::{InMemoryCategoryRepository, PendingCategories};
use crate::repositories::transaction_repository::{InMemoryTransactionRepository, pending, rows_after_update};
use crate::text::text_eq;
use crate::time::Timestamp;

verus! {

/// Errors of synchronization.
#[derive(Debug, Clone, PartialEq, Eq)]
pub enum SyncError {
    Serialization(String),
    Network(String),
    Conflict(String),
    Domain(DomainError),
}

impl SyncError {
    /// The error text: a prefix naming the kind, then the message.
    pub open spec fn text(self) -> Seq<char> {
        match self {
            SyncError::Serialization(m) => "Serialization error: "@ + m@,
            SyncError::Network(m) => "Network error: "@ + m@,
            SyncError::Conflict(m) => "Conflict: "@ + m@,
            SyncError::Domain(e) => "Domain error: "@ + e.kind_prefix() + e.message(),
        }
    }

    /// The error text: a prefix naming the kind, then the message.
    pub fn describe(&self) -> (r: String)
        ensures
            r@ == self.text(),
    {
        match self {
            SyncError::Serialization(m) => {
                let mut r = "Serialization error: ".to_string();
                r.append(m.as_str());
                r
            },
            SyncError::Network(m) => {
                let mut r = "Network error: ".to_string();
                r.append(m.as_str());
                r
            },
            SyncError::Conflict(m) => {
                let mut r = "Conflict: ".to_string();
                r.append(m.as_str());
                r
            },
            SyncError::Domain(e) => {
                let mut r = "Domain error: ".to_string();
                let d = e.describe();
                r.append(d.as_str());
                r
            },
        }
    }
}

/// The changes waiting to be sent to the server.
#[derive(Debug, Clone)]
pub struct SyncPayload {
    pub accounts: Vec<Account>,
    pub categories: Vec<Category>,
    pub transactions: Vec<Transaction>,
}

impl SyncPayload {
    /// Whether there is nothing to send.
    pub fn is_empty(&self) -> (r: bool)
        ensures
            r == (self.accounts@.len() == 0 && self.categories@.len() == 0 && self.transactions@.len() == 0),
    {
        self.accounts.len() == 0 && self.categories.len() == 0 && self.transactions.len() == 0
    }
}

/// What the data of a server change reads as, for each kind of entity.
#[derive(Debug, Clone)]
pub struct ServerRecord {
    pub transaction: Option<Transaction>,
    pub account: Option<Account>,
    pub category: Option<Category>,
}

/// One change of an entity on the server.
#[derive(Debug, Clone)]
pub struct ServerChange {
    /// `transaction`, `account` or `category`.
    pub entity_type: String,
    /// The entity's identifier, as UUID text.
    pub entity_id: String,
    pub data: ServerRecord,
    pub version: i64,
    pub server_updated_at: String,
}

/// The server's answer to a push: the identifiers it accepted and its conflicting versions.
#[derive(Debug, Clone)]
pub struct SyncResponse {
    pub accepted: Vec<String>,
    pub conflicts: Vec<ServerChange>,
}

/// The link to the server (HTTP, WebSocket, or a stand-in for tests).
pub trait SyncTransport {
    /// Sends the pending changes; the server answers with what it accepted and its conflicts.
    fn push(&self, payload: &SyncPayload) -> Result<SyncResponse, SyncError>;

    /// Fetches the changes made on the server.
    fn pull(&self) -> Result<Vec<ServerChange>, SyncError>;
}

/// Counts of one synchronization.
#[derive(Debug, Clone, Copy, PartialEq, Eq, Structural)]
pub struct SyncResult {
    pub pushed: usize,
    pub conflicts: usize,
    pub pulled: usize,
}

/// The stored accounts, categories and transactions.
pub type SyncState = (Seq<Account>, Seq<Category>, Seq<Transaction>);

/// Number of entities awaiting synchronization.
pub open spec fn pending_total(st: SyncState) -> nat {
    st.0.filter(accepted(PendingAccounts)).len() + st.1.filter(accepted(PendingCategories)).len()
        + st.2.filter(|t: Transaction| pending(t)).len()
}

/// The state after marking the entity with identifier `id` synchronized at instant `at`:
/// the live account with that identifier, or else the live category, or else the stored
/// transaction.
pub open spec fn mark_state(st: SyncState, id: EntityId, at: Timestamp) -> SyncState {
    match lookup_live(st.0, id) {
        Some(a) => (
            rows_revised(st.0, Account { sync_status: SyncStatus::Synced, base: BaseEntity { updated_at: at, ..a.base }, ..a }),
            st.1,
            st.2,
        ),
        None => match lookup_live(st.1, id) {
            Some(c) => (
                st.0,
                rows_revised(st.1, Category { sync_status: SyncStatus::Synced, base: BaseEntity { updated_at: at, ..c.base }, ..c }),
                st.2,
            ),
            None => match lookup(st.2, id) {
                Some(t) => (
                    st.0,
                    st.1,
                    rows_after_update(st.2, Transaction {
                        sync_status: SyncStatus::Synced,
                        base: BaseEntity { updated_at: at, ..t.base },
                        ..t
                    }),
                ),
                None => st,
            },
        },
    }
}

/// The state after marking synchronized the entity that UUID text `text` names, if any.
pub open spec fn mark_text(st: SyncState, text: Seq<char>, at: Timestamp) -> SyncState {
    match uuid_parse(text) {
        Some(id) => mark_state(st, id, at),
        None => st,
    }
}

/// The state after marking each accepted identifier in turn, at the instants `ats`.
pub open spec fn mark_all(st: SyncState, ids: Seq<String>, ats: Seq<Timestamp>) -> SyncState
    decreases ids.len(),
{
    if ids.len() == 0 {
        st
    } else {
        mark_text(mark_all(st, ids.drop_last(), ats.drop_last()), ids.last()@, ats.last())
    }
}

/// The local transaction after a conflict with the server's version `change`: when the
/// server's version is newer, the server's amount, type, description, category and date
/// with the server's version number, synchronized (`None` when the server's data does not
/// read as a transaction); otherwise the local one, awaiting synchronization again.
pub open spec fn lww_transaction(local: Transaction, change: ServerChange) -> Option<Transaction> {
    if change.version > local.version {
        match change.data.transaction {
            Some(s) => Some(Transaction {
                amount: s.amount,
                transaction_type: s.transaction_type,
                description: s.description,
                category_id: s.category_id,
                date: s.date,
                version: change.version,
                sync_status: SyncStatus::Synced,
                ..local
            }),
            None => None,
        }
    } else {
        Some(Transaction { sync_status: SyncStatus::Pending, ..local })
    }
}

/// The local account after a conflict with the server's version `change` (name and
/// currency from a newer server version).
pub open spec fn lww_account(local: Account, change: ServerChange) -> Option<Account> {
    if change.version > local.version {
        match change.data.account {
            Some(s) => Some(Account {
                name: s.name,
                currency: s.currency,
                version: change.version,
                sync_status: SyncStatus::Synced,
                ..local
            }),
            None => None,
        }
    } else {
        Some(Account { sync_status: SyncStatus::Pending, ..local })
    }
}

/// The local category after a conflict with the server's version `change` (name and icon
/// from a newer server version).
pub open spec fn lww_category(local: Category, change: ServerChange) -> Option<Category> {
    if change.version > local.version {
        match change.data.category {
            Some(s) => Some(Category {
                name: s.name,
                icon: s.icon,
                version: change.version,
                sync_status: SyncStatus::Synced,
                ..local
            }),
            None => None,
        }
    } else {
        Some(Category { sync_status: SyncStatus::Pending, ..local })
    }
}

/// The state after resolving one server change by last write wins: the stored transaction,
/// live account or live category it names (by type and UUID text) is resolved; nothing
/// changes for any other change.
pub open spec fn resolve_state(st: SyncState, change: ServerChange) -> SyncState {
    match uuid_parse(change.entity_id@) {
        None => st,
        Some(id) => if change.entity_type@ == "transaction"@ {
            match lookup(st.2, id) {
                Some(local) => match lww_transaction(local, change) {
                    Some(n) => (st.0, st.1, rows_after_update(st.2, n)),
                    None => st,
                },
                None => st,
            }
        } else if change.entity_type@ == "account"@ {
            match lookup_live(st.0, id) {
                Some(local) => match lww_account(local, change) {
                    Some(n) => (rows_revised(st.0, n), st.1, st.2),
                    None => st,
                },
                None => st,
            }
        } else if change.entity_type@ == "category"@ {
            match lookup_live(st.1, id) {
                Some(local) => match lww_category(local, change) {
                    Some(n) => (st.0, rows_revised(st.1, n), st.2),
                    None => st,
                },
                None => st,
            }
        } else {
            st
        },
    }
}

/// The state after resolving each change in turn.
pub open spec fn resolve_all(st: SyncState, changes: Seq<ServerChange>) -> SyncState
    decreases changes.len(),
{
    if changes.len() == 0 {
        st
    } else {
        resolve_state(resolve_all(st, changes.drop_last()), changes.last())
    }
}

/// The state after a push answered by `response`: the accepted identifiers are marked
/// synchronized at the instants `ats`, then the conflicts are resolved.
pub open spec fn pushed_state(st: SyncState, response: SyncResponse, ats: Seq<Timestamp>) -> SyncState {
    resolve_all(mark_all(st, response.accepted@, ats), response.conflicts@)
}

/// The state after a full synchronization from `st`: when anything was pending, the push
/// answered by `response` (accepted identifiers marked at the instants `ats`), then the
/// pulled `changes` resolved in turn.
pub open spec fn synced_state(
    st: SyncState,
    response: SyncResponse,
    ats: Seq<Timestamp>,
    changes: Seq<ServerChange>,
) -> SyncState {
    let pushed = if pending_total(st) == 0 { st } else { pushed_state(st, response, ats) };
    resolve_all(pushed, changes)
}

/// Coordinates synchronization of the local accounts, categories and transactions with
/// the server behind `transport`.
pub struct SyncEngine<'a, T: SyncTransport> {
    pub account_repo: &'a mut InMemoryAccountRepository,
    pub category_repo: &'a mut InMemoryCategoryRepository,
    pub transaction_repo: &'a mut InMemoryTransactionRepository,
    pub transport: &'a T,
}

impl<'a, T: SyncTransport> SyncEngine<'a, T> {
    /// The stored accounts, categories and transactions.
    pub open spec fn state(&self) -> SyncState {
        (self.account_repo@, self.category_repo@, self.transaction_repo@)
    }

    /// Whether every repository is well formed.
    pub open spec fn wf(&self) -> bool {
        self.account_repo.wf() && self.category_repo.wf() && self.transaction_repo.wf()
    }

    /// An engine over the given repositories and transport.
    pub fn new(
        account_repo: &'a mut InMemoryAccountRepository,
        category_repo: &'a mut InMemoryCategoryRepository,
        transaction_repo: &'a mut InMemoryTransactionRepository,
        transport: &'a T,
    ) -> (r: SyncEngine<'a, T>)
        ensures
            *r.account_repo == *old(account_repo),
            *r.category_repo == *old(category_repo),
            *r.transaction_repo == *old(transaction_repo),
            *final(r.account_repo) == *final(account_repo),
            *final(r.category_repo) == *final(category_repo),
            *final(r.transaction_repo) == *final(transaction_repo),
            r.transport == transport,
    {
        SyncEngine { account_repo, category_repo, transaction_repo, transport }
    }

    /// The entities awaiting synchronization (deleted ones included), in storage order.
    pub fn collect_pending_changes(&self) -> (r: Result<SyncPayload, SyncError>)
        ensures
            r matches Ok(p) && p.accounts@ == old(self.account_repo)@.filter(accepted(PendingAccounts))
                && p.categories@ == old(self.category_repo)@.filter(accepted(PendingCategories))
                && p.transactions@ == old(self.transaction_repo)@.filter(|t: Transaction| pending(t)),
    {
        let accounts = match self.account_repo.find_pending_sync() {
            Ok(v) => v,
            Err(e) => {
                return Err(SyncError::Domain(e));
            },
        };
        let categories = match self.category_repo.find_pending_sync() {
            Ok(v) => v,
            Err(e) => {
                return Err(SyncError::Domain(e));
            },
        };
        let transactions = match self.transaction_repo.find_pending_sync() {
            Ok(v) => v,
            Err(e) => {
                return Err(SyncError::Domain(e));
            },
        };
        Ok(SyncPayload { accounts, categories, transactions })
    }
}

impl<'a, T: SyncTransport> SyncEngine<'a, T> {
    /// Marks the entity with identifier `id` synchronized now: the live account with that
    /// identifier, or else the live category, or else the stored transaction.
    fn mark_entity_synced(&mut self, id: EntityId) -> (r: Result<(), SyncError>)
        requires
            old(self).wf(),
        ensures
            final(self).wf(),
            *final(final(self).account_repo) == *final(old(self).account_repo),
            *final(final(self).category_repo) == *final(old(self).category_repo),
            *final(final(self).transaction_repo) == *final(old(self).transaction_repo),
            final(self).transport == old(self).transport,
            r is Ok,
            exists|at: Timestamp| final(self).state() == mark_state(old(self).state(), id, at),
    {
        if let Ok(Some(mut account)) = self.account_repo.find_by_id(id) {
            account.mark_synced();
            if let Err(e) = self.account_repo.update(&account) {
                return Err(SyncError::Domain(e));
            }
            assert(self.state() == mark_state(old(self).state(), id, account.base.updated_at));
            return Ok(());
        }
        if let Ok(Some(mut category)) = self.category_repo.find_by_id(id) {
            category.mark_synced();
            if let Err(e) = self.category_repo.update(&category) {
                return Err(SyncError::Domain(e));
            }
            assert(self.state() == mark_state(old(self).state(), id, category.base.updated_at));
            return Ok(());
        }
        if let Ok(Some(mut transaction)) = self.transaction_repo.find_by_id(id) {
            transaction.mark_synced();
            if let Err(e) = self.transaction_repo.update(&transaction) {
                return Err(SyncError::Domain(e));
            }
            assert(self.state() == mark_state(old(self).state(), id, transaction.base.updated_at));
            return Ok(());
        }
        assert(self.state() == mark_state(old(self).state(), id, Timestamp::instant(0)));
        Ok(())
    }

    /// Resolves a server change by last write wins: when the server's version is newer, the
    /// local entity takes the server's data (when it reads as that kind of entity) and is
    /// synchronized; otherwise the local entity is kept and awaits synchronization again.
    /// Changes naming no stored entity, or a kind other than `transaction`, `account` or
    /// `category`, change nothing.
    pub fn resolve_conflict_lww(&mut self, change: &ServerChange) -> (r: Result<(), SyncError>)
        requires
            old(self).wf(),
        ensures
            final(self).wf(),
            *final(final(self).account_repo) == *final(old(self).account_repo),
            *final(final(self).category_repo) == *final(old(self).category_repo),
            *final(final(self).transaction_repo) == *final(old(self).transaction_repo),
            final(self).transport == old(self).transport,
            r is Ok,
            final(self).state() == resolve_state(old(self).state(), *change),
    {
        let id = match parse_entity_id(change.entity_id.as_str()) {
            Some(id) => id,
            None => {
                return Ok(());
            },
        };
        if text_eq(change.entity_type.as_str(), "transaction") {
            if let Ok(Some(mut local)) = self.transaction_repo.find_by_id(id) {
                if change.version > local.version {
                    if let Some(server) = &change.data.transaction {
                        local.amount = server.amount;
                        local.transaction_type = server.transaction_type;
                        local.description = server.description.clone();
                        local.category_id = server.category_id;
                        local.date = server.date;
                        local.version = change.version;
                        local.sync_status = SyncStatus::Synced;
                        if let Err(e) = self.transaction_repo.update(&local) {
                            return Err(SyncError::Domain(e));
                        }
                    }
                } else {
                    local.sync_status = SyncStatus::Pending;
                    if let Err(e) = self.transaction_repo.update(&local) {
                        return Err(SyncError::Domain(e));
                    }
                }
            }
        } else if text_eq(change.entity_type.as_str(), "account") {
            if let Ok(Some(mut local)) = self.account_repo.find_by_id(id) {
                if change.version > local.version {
                    if let Some(server) = &change.data.account {
                        local.name = server.name.clone();
                        local.currency = server.currency.clone();
                        local.version = change.version;
                        local.sync_status = SyncStatus::Synced;
                        if let Err(e) = self.account_repo.update(&local) {
                            return Err(SyncError::Domain(e));
                        }
                    }
                } else {
                    local.sync_status = SyncStatus::Pending;
                    if let Err(e) = self.account_repo.update(&local) {
                        return Err(SyncError::Domain(e));
                    }
                }
            }
        } else if text_eq(change.entity_type.as_str(), "category") {
            if let Ok(Some(mut local)) = self.category_repo.find_by_id(id) {
                if change.version > local.version {
                    if let Some(server) = &change.data.category {
                        local.name = server.name.clone();
                        local.icon = crate::entities::category::duplicate_text(&server.icon);
                        local.version = change.version;
                        local.sync_status = SyncStatus::Synced;
                        if let Err(e) = self.category_repo.update(&local) {
                            return Err(SyncError::Domain(e));
                        }
                    }
                } else {
                    local.sync_status = SyncStatus::Pending;
                    if let Err(e) = self.category_repo.update(&local) {
                        return Err(SyncError::Domain(e));
                    }
                }
            }
        }
        Ok(())
    }

    /// Applies a change pulled from the server, resolving it by last write wins.
    pub fn apply_server_change(&mut self, change: &ServerChange) -> (r: Result<(), SyncError>)
        requires
            old(self).wf(),
        ensures
            final(self).wf(),
            *final(final(self).account_repo) == *final(old(self).account_repo),
            *final(final(self).category_repo) == *final(old(self).category_repo),
            *final(final(self).transaction_repo) == *final(old(self).transaction_repo),
            final(self).transport == old(self).transport,
            r is Ok,
            final(self).state() == resolve_state(old(self).state(), *change),
    {
        self.resolve_conflict_lww(change)
    }
}

impl<'a, T: SyncTransport> SyncEngine<'a, T> {
    /// Processes the server's answer to a push of `pushed` entities: marks each accepted
    /// identifier synchronized (identifiers that are not UUID text are skipped), then
    /// resolves each conflict by last write wins.
    pub fn apply_push_response(&mut self, pushed: usize, response: &SyncResponse) -> (r: Result<SyncResult, SyncError>)
        requires
            old(self).wf(),
        ensures
            final(self).wf(),
            *final(final(self).account_repo) == *final(old(self).account_repo),
            *final(final(self).category_repo) == *final(old(self).category_repo),
            *final(final(self).transaction_repo) == *final(old(self).transaction_repo),
            final(self).transport == old(self).transport,
            r == Ok::<SyncResult, SyncError>(SyncResult { pushed, conflicts: response.conflicts@.len() as usize, pulled: 0 }),
            exists|ats: Seq<Timestamp>| #![trigger ats.len()] ats.len() == response.accepted@.len()
                && final(self).state() == pushed_state(old(self).state(), *response, ats),
    {
        let ghost start = self.state();
        let ghost mut ats: Seq<Timestamp> = Seq::empty();
        let mut i: usize = 0;
        while i < response.accepted.len()
            invariant
                self.wf(),
                *final(self.account_repo) == *final(old(self).account_repo),
                *final(self.category_repo) == *final(old(self).category_repo),
                *final(self.transaction_repo) == *final(old(self).transaction_repo),
                self.transport == old(self).transport,
                i <= response.accepted@.len(),
                ats.len() == i,
                self.state() == mark_all(start, response.accepted@.take(i as int), ats),
            decreases response.accepted@.len() - i,
        {
            let ghost before = self.state();
            let ghost at: Timestamp = Timestamp::instant(0);
            match parse_entity_id(response.accepted[i].as_str()) {
                Some(id) => {
                    self.mark_entity_synced(id)?;
                    proof {
                        at = choose|at: Timestamp| self.state() == mark_state(before, id, at);
                    }
                },
                None => {},
            }
            proof {
                assert(response.accepted@.take(i + 1).drop_last() =~= response.accepted@.take(i as int));
                assert(ats.push(at).drop_last() =~= ats);
                ats = ats.push(at);
            }
            i += 1;
        }
        proof {
            assert(response.accepted@.take(response.accepted@.len() as int) =~= response.accepted@);
        }
        let ghost mid = self.state();
        let mut j: usize = 0;
        while j < response.conflicts.len()
            invariant
                self.wf(),
                *final(self.account_repo) == *final(old(self).account_repo),
                *final(self.category_repo) == *final(old(self).category_repo),
                *final(self.transaction_repo) == *final(old(self).transaction_repo),
                self.transport == old(self).transport,
                j <= response.conflicts@.len(),
                self.state() == resolve_all(mid, response.conflicts@.take(j as int)),
            decreases response.conflicts@.len() - j,
        {
            self.resolve_conflict_lww(&response.conflicts[j])?;
            proof {
                assert(response.conflicts@.take(j + 1).drop_last() =~= response.conflicts@.take(j as int));
            }
            j += 1;
        }
        proof {
            assert(response.conflicts@.take(response.conflicts@.len() as int) =~= response.conflicts@);
            assert(self.state() == pushed_state(start, *response, ats));
        }
        Ok(SyncResult { pushed, conflicts: response.conflicts.len(), pulled: 0 })
    }

    /// Applies each change pulled from the server in turn, resolving it by last write wins;
    /// returns how many there were.
    pub fn apply_server_changes(&mut self, changes: &Vec<ServerChange>) -> (r: usize)
        requires
            old(self).wf(),
        ensures
            final(self).wf(),
            *final(final(self).account_repo) == *final(old(self).account_repo),
            *final(final(self).category_repo) == *final(old(self).category_repo),
            *final(final(self).transaction_repo) == *final(old(self).transaction_repo),
            final(self).transport == old(self).transport,
            r == changes@.len(),
            final(self).state() == resolve_all(old(self).state(), changes@),
    {
        let ghost start = self.state();
        let mut j: usize = 0;
        while j < changes.len()
            invariant
                self.wf(),
                *final(self.account_repo) == *final(old(self).account_repo),
                *final(self.category_repo) == *final(old(self).category_repo),
                *final(self.transaction_repo) == *final(old(self).transaction_repo),
                self.transport == old(self).transport,
                j <= changes@.len(),
                self.state() == resolve_all(start, changes@.take(j as int)),
            decreases changes@.len() - j,
        {
            let _ = self.apply_server_change(&changes[j]);
            proof {
                assert(changes@.take(j + 1).drop_last() =~= changes@.take(j as int));
            }
            j += 1;
        }
        proof {
            assert(changes@.take(changes@.len() as int) =~= changes@);
        }
        changes.len()
    }

    /// Pushes the pending changes and processes the server's answer. With nothing pending,
    /// nothing is sent and all counts are zero. Fails, changing nothing, when the transport
    /// fails.
    #[verifier::spinoff_prover]
    pub fn push_changes(&mut self) -> (r: Result<SyncResult, SyncError>)
        requires
            old(self).wf(),
            pending_total(old(self).state()) <= usize::MAX,
        ensures
            final(self).wf(),
            *final(final(self).account_repo) == *final(old(self).account_repo),
            *final(final(self).category_repo) == *final(old(self).category_repo),
            *final(final(self).transaction_repo) == *final(old(self).transaction_repo),
            final(self).transport == old(self).transport,
            r is Err ==> final(self).state() == old(self).state(),
            pending_total(old(self).state()) == 0 ==> r == Ok::<SyncResult, SyncError>(
                SyncResult { pushed: 0, conflicts: 0, pulled: 0 },
            ) && final(self).state() == old(self).state(),
            r matches Ok(res) ==> res.pushed == pending_total(old(self).state()) && res.pulled == 0,
            pending_total(old(self).state()) > 0 ==> (r matches Ok(res) ==> exists|response: SyncResponse, ats: Seq<Timestamp>|
                #![trigger pushed_state(old(self).state(), response, ats)]
                res.conflicts == response.conflicts@.len() && ats.len() == response.accepted@.len()
                && final(self).state() == pushed_state(old(self).state(), response, ats)),
    {
        let payload = self.collect_pending_changes()?;
        if payload.is_empty() {
            return Ok(SyncResult { pushed: 0, conflicts: 0, pulled: 0 });
        }
        let total = payload.accounts.len() + payload.categories.len() + payload.transactions.len();
        let response = self.transport.push(&payload)?;
        let r = self.apply_push_response(total, &response);
        proof {
            let ats = choose|ats: Seq<Timestamp>| #![trigger ats.len()] ats.len() == response.accepted@.len()
                && self.state() == pushed_state(old(self).state(), response, ats);
            assert(ats.len() == response.accepted@.len());
            assert(self.state() == pushed_state(old(self).state(), response, ats));
            assert(r matches Ok(res) && res.conflicts == response.conflicts@.len());
            assert(exists|response2: SyncResponse, ats2: Seq<Timestamp>|
                #![trigger pushed_state(old(self).state(), response2, ats2)]
                response.conflicts@.len() == response2.conflicts@.len() && ats2.len() == response2.accepted@.len()
                && self.state() == pushed_state(old(self).state(), response2, ats2));
        }
        r
    }

    /// Pulls the server's changes and applies each in turn; returns how many there were.
    /// Fails, changing nothing, when the transport fails.
    pub fn pull_changes(&mut self) -> (r: Result<usize, SyncError>)
        requires
            old(self).wf(),
        ensures
            final(self).wf(),
            *final(final(self).account_repo) == *final(old(self).account_repo),
            *final(final(self).category_repo) == *final(old(self).category_repo),
            *final(final(self).transaction_repo) == *final(old(self).transaction_repo),
            final(self).transport == old(self).transport,
            r is Err ==> final(self).state() == old(self).state(),
            r matches Ok(n) ==> exists|changes: Seq<ServerChange>| #![trigger resolve_all(old(self).state(), changes)]
                n == changes.len() && final(self).state() == resolve_all(old(self).state(), changes),
    {
        let changes = self.transport.pull()?;
        let n = self.apply_server_changes(&changes);
        proof {
            assert(self.state() == resolve_all(old(self).state(), changes@));
        }
        Ok(n)
    }

    /// A full synchronization: pushes the pending changes, then pulls the server's changes.
    pub fn sync(&mut self) -> (r: Result<SyncResult, SyncError>)
        requires
            old(self).wf(),
            pending_total(old(self).state()) <= usize::MAX,
        ensures
            final(self).wf(),
            *final(final(self).account_repo) == *final(old(self).account_repo),
            *final(final(self).category_repo) == *final(old(self).category_repo),
            *final(final(self).transaction_repo) == *final(old(self).transaction_repo),
            final(self).transport == old(self).transport,
            r matches Ok(res) ==> res.pushed == pending_total(old(self).state())
                && (pending_total(old(self).state()) == 0 ==> res.conflicts == 0),
            r matches Ok(res) ==> exists|response: SyncResponse, ats: Seq<Timestamp>, changes: Seq<ServerChange>|
                #![trigger synced_state(old(self).state(), response, ats, changes)]
                res.pulled == changes.len()
                && (pending_total(old(self).state()) > 0 ==> res.conflicts == response.conflicts@.len()
                    && ats.len() == response.accepted@.len())
                && final(self).state() == synced_state(old(self).state(), response, ats, changes),
            r is Err ==> final(self).state() == old(self).state()
                || exists|response: SyncResponse, ats: Seq<Timestamp>|
                #![trigger pushed_state(old(self).state(), response, ats)]
                final(self).state() == synced_state(old(self).state(), response, ats, Seq::<ServerChange>::empty()),
    {
        let mut result = self.push_changes()?;
        let ghost mid = self.state();
        let ghost pushed = result;
        let pulled = match self.pull_changes() {
            Ok(n) => n,
            Err(e) => {
                proof {
                    if pending_total(old(self).state()) > 0 {
                        let (response, ats) = choose|response: SyncResponse, ats: Seq<Timestamp>|
                            #![trigger pushed_state(old(self).state(), response, ats)]
                            pushed.conflicts == response.conflicts@.len() && ats.len() == response.accepted@.len()
                            && mid == pushed_state(old(self).state(), response, ats);
                        assert(self.state() == synced_state(old(self).state(), response, ats, Seq::<ServerChange>::empty()));
                    }
                }
                return Err(e);
            },
        };
        result.pulled = pulled;
        proof {
            let changes = choose|changes: Seq<ServerChange>| #![trigger resolve_all(mid, changes)]
                pulled == changes.len() && self.state() == resolve_all(mid, changes);
            if pending_total(old(self).state()) > 0 {
                let (response, ats) = choose|response: SyncResponse, ats: Seq<Timestamp>|
                    #![trigger pushed_state(old(self).state(), response, ats)]
                    pushed.conflicts == response.conflicts@.len() && ats.len() == response.accepted@.len()
                    && mid == pushed_state(old(self).state(), response, ats);
                assert(self.state() == synced_state(old(self).state(), response, ats, changes));
            } else {
                let response = vstd::pervasive::arbitrary::<SyncResponse>();
                let ats = Seq::<Timestamp>::empty();
                assert(self.state() == synced_state(old(self).state(), response, ats, changes));
            }
        }
        Ok(result)
    }
}

} // verus!
