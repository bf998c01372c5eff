use std::cell::RefCell;

use finance_core::entities::{Account, SyncStatus, Transaction, TransactionType};
use finance_core::ids::EntityId;
use finance_core::repositories::{InMemoryAccountRepository, InMemoryCategoryRepository, InMemoryTransactionRepository};
use finance_core::sync::{ServerChange, ServerRecord, SyncEngine, SyncError, SyncPayload, SyncResponse, SyncTransport};
use finance_core::time::Timestamp;

/// A fresh random identifier.
fn new_entity_id() -> EntityId {
    uuid::Uuid::new_v4().as_u128()
}

/// The current instant, in whole seconds.
fn now() -> Timestamp {
    Timestamp::from_unix(chrono::Utc::now().timestamp()).unwrap()
}

/// An identifier as hyphenated UUID text.
fn entity_id_text(id: EntityId) -> String {
    uuid::Uuid::from_u128(id).to_string()
}

// ─── Mock Transport ──────────────────────────────────────────────────────────

struct MockTransport {
    push_response: RefCell<Option<SyncResponse>>,
    pull_response: RefCell<Option<Vec<ServerChange>>>,
}

impl MockTransport {
    fn new() -> Self {
        Self { push_response: RefCell::new(None), pull_response: RefCell::new(None) }
    }

    fn set_push_response(&self, response: SyncResponse) {
        *self.push_response.borrow_mut() = Some(response);
    }

    fn set_pull_response(&self, changes: Vec<ServerChange>) {
        *self.pull_response.borrow_mut() = Some(changes);
    }
}

impl SyncTransport for MockTransport {
    fn push(&self, _payload: &SyncPayload) -> Result<SyncResponse, SyncError> {
        self.push_response
            .borrow()
            .clone()
            .ok_or_else(|| SyncError::Network("No mock response configured".to_string()))
    }

    fn pull(&self) -> Result<Vec<ServerChange>, SyncError> {
        self.pull_response
            .borrow()
            .clone()
            .ok_or_else(|| SyncError::Network("No mock pull response configured".to_string()))
    }
}

struct Stores {
    accounts: InMemoryAccountRepository,
    categories: InMemoryCategoryRepository,
    transactions: InMemoryTransactionRepository,
}

fn stores() -> Stores {
    Stores {
        accounts: InMemoryAccountRepository::new(),
        categories: InMemoryCategoryRepository::new(),
        transactions: InMemoryTransactionRepository::new(),
    }
}

// ─── Tests ───────────────────────────────────────────────────────────────────

#[test]
fn test_collect_pending_changes_empty() {
    let mut s = stores();
    let transport = MockTransport::new();

    let engine = SyncEngine::new(&mut s.accounts, &mut s.categories, &mut s.transactions, &transport);

    let payload = engine.collect_pending_changes().unwrap();
    assert!(payload.accounts.is_empty());
    assert!(payload.categories.is_empty());
    assert!(payload.transactions.is_empty());
}

#[test]
fn test_collect_pending_changes_with_data() {
    let mut s = stores();
    let transport = MockTransport::new();

    let user_id = new_entity_id();
    let account = Account::new(user_id, "Checking".to_string(), "USD".to_string());
    s.accounts.save(&account).unwrap();

    let tx = Transaction::new(
        account.id(),
        new_entity_id(),
        5000,
        TransactionType::Expense,
        "Dinner".to_string(),
        now(),
    )
    .unwrap();
    s.transactions.save(&tx).unwrap();

    let engine = SyncEngine::new(&mut s.accounts, &mut s.categories, &mut s.transactions, &transport);

    let payload = engine.collect_pending_changes().unwrap();
    assert_eq!(payload.accounts.len(), 1);
    assert_eq!(payload.transactions.len(), 1);
}

#[test]
fn test_push_changes_marks_synced() {
    let mut s = stores();
    let transport = MockTransport::new();

    let user_id = new_entity_id();
    let account = Account::new(user_id, "Checking".to_string(), "USD".to_string());
    let account_id = entity_id_text(account.id());
    s.accounts.save(&account).unwrap();

    // Server accepts the account
    transport.set_push_response(SyncResponse { accepted: vec![account_id.clone()], conflicts: vec![] });
    transport.set_pull_response(vec![]);

    let mut engine = SyncEngine::new(&mut s.accounts, &mut s.categories, &mut s.transactions, &transport);

    let result = engine.push_changes().unwrap();
    assert_eq!(result.pushed, 1);
    assert_eq!(result.conflicts, 0);

    // Verify the account is now synced
    let updated = s.accounts.find_by_id(uuid::Uuid::parse_str(&account_id).unwrap().as_u128()).unwrap().unwrap();
    assert_eq!(updated.sync_status, SyncStatus::Synced);
}

#[test]
fn test_sync_with_no_pending_returns_zero() {
    let mut s = stores();
    let transport = MockTransport::new();

    transport.set_pull_response(vec![]);

    let mut engine = SyncEngine::new(&mut s.accounts, &mut s.categories, &mut s.transactions, &transport);

    let result = engine.sync().unwrap();
    assert_eq!(result.pushed, 0);
    assert_eq!(result.conflicts, 0);
    assert_eq!(result.pulled, 0);
}

#[test]
fn test_full_sync_flow() {
    let mut s = stores();
    let transport = MockTransport::new();

    // Step 1: Create a transaction offline (sync_status = pending)
    let user_id = new_entity_id();
    let account = Account::new(user_id, "Main".to_string(), "USD".to_string());
    let account_id = account.id();
    s.accounts.save(&account).unwrap();

    let tx = Transaction::new(
        account_id,
        new_entity_id(),
        7500,
        TransactionType::Expense,
        "Groceries".to_string(),
        now(),
    )
    .unwrap();
    let tx_id = tx.id();
    s.transactions.save(&tx).unwrap();

    // Verify pending
    let pending = s.transactions.find_pending_sync().unwrap();
    assert_eq!(pending.len(), 1);
    assert_eq!(pending[0].sync_status, SyncStatus::Pending);

    // Step 2: Server accepts both entities
    transport.set_push_response(SyncResponse {
        accepted: vec![entity_id_text(account_id), entity_id_text(tx_id)],
        conflicts: vec![],
    });
    transport.set_pull_response(vec![]);

    let mut engine = SyncEngine::new(&mut s.accounts, &mut s.categories, &mut s.transactions, &transport);

    // Step 3: Execute sync
    let result = engine.sync().unwrap();
    assert_eq!(result.pushed, 2); // 1 account + 1 transaction
    assert_eq!(result.conflicts, 0);

    // Step 4: Verify both are marked as synced
    let synced_account = s.accounts.find_by_id(account_id).unwrap().unwrap();
    assert_eq!(synced_account.sync_status, SyncStatus::Synced);

    let synced_tx = s.transactions.find_by_id(tx_id).unwrap().unwrap();
    assert_eq!(synced_tx.sync_status, SyncStatus::Synced);

    // Step 5: No more pending
    let pending = s.transactions.find_pending_sync().unwrap();
    assert_eq!(pending.len(), 0);
}

// ─── Further behaviour ───────────────────────────────────────────────────────

#[test]
fn test_push_without_response_is_network_error() {
    let mut s = stores();
    let transport = MockTransport::new();
    let account = Account::new(new_entity_id(), "Checking".to_string(), "USD".to_string());
    s.accounts.save(&account).unwrap();

    let mut engine = SyncEngine::new(&mut s.accounts, &mut s.categories, &mut s.transactions, &transport);
    let err = engine.push_changes().unwrap_err();
    assert_eq!(err, SyncError::Network("No mock response configured".to_string()));
    assert_eq!(err.describe(), "Network error: No mock response configured");

    // Nothing was marked.
    let still = s.accounts.find_by_id(account.id()).unwrap().unwrap();
    assert_eq!(still.sync_status, SyncStatus::Pending);
}

#[test]
fn test_push_with_nothing_pending_skips_transport() {
    let mut s = stores();
    let transport = MockTransport::new();
    let mut engine = SyncEngine::new(&mut s.accounts, &mut s.categories, &mut s.transactions, &transport);
    let result = engine.push_changes().unwrap();
    assert_eq!((result.pushed, result.conflicts, result.pulled), (0, 0, 0));
}

#[test]
fn test_unparsable_accepted_id_is_skipped() {
    let mut s = stores();
    let transport = MockTransport::new();
    let account = Account::new(new_entity_id(), "Checking".to_string(), "USD".to_string());
    s.accounts.save(&account).unwrap();
    transport.set_push_response(SyncResponse { accepted: vec!["not-a-uuid".to_string()], conflicts: vec![] });

    let mut engine = SyncEngine::new(&mut s.accounts, &mut s.categories, &mut s.transactions, &transport);
    let result = engine.push_changes().unwrap();
    assert_eq!(result.pushed, 1);
    let still = s.accounts.find_by_id(account.id()).unwrap().unwrap();
    assert_eq!(still.sync_status, SyncStatus::Pending);
}

#[test]
fn test_conflict_server_newer_version_wins() {
    let mut s = stores();
    let transport = MockTransport::new();
    let account = Account::new(new_entity_id(), "Main".to_string(), "USD".to_string());
    s.accounts.save(&account).unwrap();
    let tx = Transaction::new(
        account.id(),
        new_entity_id(),
        1000,
        TransactionType::Expense,
        "Local".to_string(),
        now(),
    )
    .unwrap();
    s.transactions.save(&tx).unwrap();

    let mut server_tx = tx.clone();
    server_tx.description = "Server".to_string();
    server_tx.version = 5;
    let change = ServerChange {
        entity_type: "transaction".to_string(),
        entity_id: entity_id_text(tx.id()),
        data: ServerRecord { transaction: Some(server_tx), account: None, category: None },
        version: 5,
        server_updated_at: "2026-01-01T00:00:00Z".to_string(),
    };
    transport.set_push_response(SyncResponse { accepted: vec![], conflicts: vec![change] });

    let mut engine = SyncEngine::new(&mut s.accounts, &mut s.categories, &mut s.transactions, &transport);
    let result = engine.push_changes().unwrap();
    assert_eq!(result.conflicts, 1);

    let stored = s.transactions.find_by_id(tx.id()).unwrap().unwrap();
    assert_eq!(stored.description, "Server");
    assert_eq!(stored.version, 5);
    assert_eq!(stored.sync_status, SyncStatus::Synced);
}

#[test]
fn test_conflict_local_newer_version_kept() {
    let mut s = stores();
    let transport = MockTransport::new();
    let account = Account::new(new_entity_id(), "Main".to_string(), "USD".to_string());
    s.accounts.save(&account).unwrap();
    let mut tx = Transaction::new(
        account.id(),
        new_entity_id(),
        1000,
        TransactionType::Expense,
        "Local".to_string(),
        now(),
    )
    .unwrap();
    tx.version = 7;
    s.transactions.save(&tx).unwrap();

    let mut server_tx = tx.clone();
    server_tx.description = "Server".to_string();
    server_tx.version = 3;
    let change = ServerChange {
        entity_type: "transaction".to_string(),
        entity_id: entity_id_text(tx.id()),
        data: ServerRecord { transaction: Some(server_tx), account: None, category: None },
        version: 3,
        server_updated_at: "2026-01-01T00:00:00Z".to_string(),
    };

    let mut engine = SyncEngine::new(&mut s.accounts, &mut s.categories, &mut s.transactions, &transport);
    engine.resolve_conflict_lww(&change).unwrap();

    let stored = s.transactions.find_by_id(tx.id()).unwrap().unwrap();
    assert_eq!(stored.description, "Local");
    assert_eq!(stored.version, 7);
}

#[test]
fn test_pull_applies_newer_server_account() {
    let mut s = stores();
    let transport = MockTransport::new();
    let local = Account::new(new_entity_id(), "Local".to_string(), "USD".to_string());
    s.accounts.save(&local).unwrap();
    let mut remote = local.clone();
    remote.name = "Remote".to_string();
    remote.currency = "EUR".to_string();
    let change = ServerChange {
        entity_type: "account".to_string(),
        entity_id: entity_id_text(local.id()),
        data: ServerRecord { transaction: None, account: Some(remote), category: None },
        version: 2,
        server_updated_at: "2026-01-01T00:00:00Z".to_string(),
    };
    transport.set_pull_response(vec![change]);

    let mut engine = SyncEngine::new(&mut s.accounts, &mut s.categories, &mut s.transactions, &transport);
    let pulled = engine.pull_changes().unwrap();
    assert_eq!(pulled, 1);

    let stored = s.accounts.find_by_id(local.id()).unwrap().unwrap();
    assert_eq!(stored.name, "Remote");
    assert_eq!(stored.currency, "EUR");
    assert_eq!(stored.version, 2);
    assert_eq!(stored.sync_status, SyncStatus::Synced);
}

#[test]
fn test_pull_ignores_unknown_local_entity() {
    let mut s = stores();
    let transport = MockTransport::new();
    let remote = Account::new(new_entity_id(), "Remote".to_string(), "EUR".to_string());
    let change = ServerChange {
        entity_type: "account".to_string(),
        entity_id: entity_id_text(remote.id()),
        data: ServerRecord { transaction: None, account: Some(remote.clone()), category: None },
        version: 1,
        server_updated_at: "2026-01-01T00:00:00Z".to_string(),
    };
    transport.set_pull_response(vec![change]);
    let mut engine = SyncEngine::new(&mut s.accounts, &mut s.categories, &mut s.transactions, &transport);
    assert_eq!(engine.pull_changes().unwrap(), 1);
    assert!(s.accounts.find_by_id(remote.id()).unwrap().is_none());
}

#[test]
fn test_unknown_entity_type_is_ignored() {
    let mut s = stores();
    let transport = MockTransport::new();
    let remote = Account::new(new_entity_id(), "Remote".to_string(), "EUR".to_string());
    let change = ServerChange {
        entity_type: "widget".to_string(),
        entity_id: entity_id_text(remote.id()),
        data: ServerRecord { transaction: None, account: Some(remote.clone()), category: None },
        version: 1,
        server_updated_at: "2026-01-01T00:00:00Z".to_string(),
    };
    let mut engine = SyncEngine::new(&mut s.accounts, &mut s.categories, &mut s.transactions, &transport);
    engine.apply_server_change(&change).unwrap();
    assert!(s.accounts.find_by_id(remote.id()).unwrap().is_none());
}

#[test]
fn test_payload_is_empty() {
    let payload = SyncPayload { accounts: vec![], categories: vec![], transactions: vec![] };
    assert!(payload.is_empty());
    let account = Account::new(new_entity_id(), "A".to_string(), "USD".to_string());
    let payload = SyncPayload { accounts: vec![account], categories: vec![], transactions: vec![] };
    assert!(!payload.is_empty());
}
