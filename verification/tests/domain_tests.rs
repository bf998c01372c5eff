use finance_core::entities::common::{BaseEntity, SyncStatus, TransactionType};
use finance_core::entities::exchange_rate::{ExchangeRate, RateSource};
use finance_core::entities::transaction::Transaction;
use finance_core::entities::{Account, Category, User};
use finance_core::ids::EntityId;
use finance_core::time::Timestamp;

/// A fresh random identifier.
fn new_entity_id() -> EntityId {
    uuid::Uuid::new_v4().as_u128()
}

/// The current instant, in whole seconds.
fn now() -> Timestamp {
    Timestamp::from_unix(chrono::Utc::now().timestamp()).unwrap()
}

#[test]
fn test_base_entity_creation() {
    let base = BaseEntity::new();
    assert!(!base.is_deleted());
    assert!(base.deleted_at.is_none());
}

#[test]
fn test_base_entity_soft_delete() {
    let mut base = BaseEntity::new();
    base.soft_delete();
    assert!(base.is_deleted());
    assert!(base.deleted_at.is_some());
}

#[test]
fn test_base_entity_touch_updates_timestamp() {
    let mut base = BaseEntity::new();
    let original = base.updated_at;
    base.touch();
    assert!(!base.updated_at.is_before(&original));
}

#[test]
fn test_user_creation() {
    let user = User::new("Alice".to_string(), "alice@example.com".to_string());
    assert_eq!(user.name, "Alice");
    assert_eq!(user.email, "alice@example.com");
    assert!(!user.base.is_deleted());
}

#[test]
fn test_account_creation() {
    let user_id = new_entity_id();
    let account = Account::new(user_id, "Checking".to_string(), "USD".to_string());
    assert_eq!(account.name, "Checking");
    assert_eq!(account.currency, "USD");
    assert_eq!(account.sync_status, SyncStatus::Pending);
    assert_eq!(account.version, 1);
}

#[test]
fn test_account_mark_synced() {
    let user_id = new_entity_id();
    let mut account = Account::new(user_id, "Savings".to_string(), "EUR".to_string());
    account.mark_synced();
    assert_eq!(account.sync_status, SyncStatus::Synced);
}

#[test]
fn test_category_creation() {
    let user_id = new_entity_id();
    let cat = Category::new(user_id, "Food".to_string(), Some("🍕".to_string()));
    assert_eq!(cat.name, "Food");
    assert_eq!(cat.icon, Some("🍕".to_string()));
    assert_eq!(cat.sync_status, SyncStatus::Pending);
}

#[test]
fn test_transaction_creation_valid() {
    let tx = Transaction::new(
        new_entity_id(),
        new_entity_id(),
        5000,
        TransactionType::Expense,
        "Dinner".to_string(),
        now(),
    );
    assert!(tx.is_ok());
    let tx = tx.unwrap();
    assert_eq!(tx.amount, 5000);
    assert_eq!(tx.transaction_type, TransactionType::Expense);
    assert_eq!(tx.sync_status, SyncStatus::Pending);
    assert_eq!(tx.version, 1);
}

#[test]
fn test_transaction_creation_zero_amount_fails() {
    let tx = Transaction::new(
        new_entity_id(),
        new_entity_id(),
        0,
        TransactionType::Income,
        "Invalid".to_string(),
        now(),
    );
    assert!(tx.is_err());
}

#[test]
fn test_transaction_creation_negative_amount_fails() {
    let tx = Transaction::new(
        new_entity_id(),
        new_entity_id(),
        -100,
        TransactionType::Expense,
        "Negative".to_string(),
        now(),
    );
    assert!(tx.is_err());
}

#[test]
fn test_transaction_update() {
    let mut tx = Transaction::new(
        new_entity_id(),
        new_entity_id(),
        1000,
        TransactionType::Expense,
        "Lunch".to_string(),
        now(),
    )
    .unwrap();

    let new_cat = new_entity_id();
    let result = tx.update(2000, TransactionType::Income, "Salary".to_string(), new_cat, now());

    assert!(result.is_ok());
    assert_eq!(tx.amount, 2000);
    assert_eq!(tx.transaction_type, TransactionType::Income);
    assert_eq!(tx.description, "Salary");
    assert_eq!(tx.version, 2);
    assert_eq!(tx.sync_status, SyncStatus::Pending);
}

#[test]
fn domain_tests_test_transaction_soft_delete() {
    let mut tx = Transaction::new(
        new_entity_id(),
        new_entity_id(),
        500,
        TransactionType::Expense,
        "Coffee".to_string(),
        now(),
    )
    .unwrap();

    tx.soft_delete();
    assert!(tx.base.is_deleted());
    assert_eq!(tx.sync_status, SyncStatus::Pending);
    assert_eq!(tx.version, 2);
}

#[test]
fn test_transaction_balance_effect() {
    let income = Transaction::new(
        new_entity_id(),
        new_entity_id(),
        10000,
        TransactionType::Income,
        "Salary".to_string(),
        now(),
    )
    .unwrap();
    assert_eq!(income.balance_effect(), 10000);

    let expense = Transaction::new(
        new_entity_id(),
        new_entity_id(),
        3000,
        TransactionType::Expense,
        "Rent".to_string(),
        now(),
    )
    .unwrap();
    assert_eq!(expense.balance_effect(), -3000);

    let transfer = Transaction::new(
        new_entity_id(),
        new_entity_id(),
        1500,
        TransactionType::Transfer,
        "To savings".to_string(),
        now(),
    )
    .unwrap();
    assert_eq!(transfer.balance_effect(), -1500);
}

#[test]
fn test_sync_status_display() {
    assert_eq!(SyncStatus::Pending.to_string(), "pending");
    assert_eq!(SyncStatus::Synced.to_string(), "synced");
    assert_eq!(SyncStatus::Conflicted.to_string(), "conflicted");
}

#[test]
fn test_transaction_type_display() {
    assert_eq!(TransactionType::Expense.to_string(), "expense");
    assert_eq!(TransactionType::Income.to_string(), "income");
    assert_eq!(TransactionType::Transfer.to_string(), "transfer");
}

#[test]
fn test_sync_status_from_str() {
    assert_eq!(SyncStatus::from_str("pending"), Some(SyncStatus::Pending));
    assert_eq!(SyncStatus::from_str("synced"), Some(SyncStatus::Synced));
    assert_eq!(SyncStatus::from_str("conflicted"), Some(SyncStatus::Conflicted));
    assert_eq!(SyncStatus::from_str("unknown"), None);
}

#[test]
fn test_transaction_type_from_str() {
    assert_eq!(TransactionType::from_str("expense"), Some(TransactionType::Expense));
    assert_eq!(TransactionType::from_str("income"), Some(TransactionType::Income));
    assert_eq!(TransactionType::from_str("transfer"), Some(TransactionType::Transfer));
    assert_eq!(TransactionType::from_str("unknown"), None);
}

#[test]
fn test_convert_simple() {
    let rate = ExchangeRate::new("USD".into(), "EUR".into(), 850_000, RateSource::Bundled);
    assert_eq!(rate.convert(10_000), 8_500);
}

#[test]
fn test_convert_large_amount() {
    let rate = ExchangeRate::new("USD".into(), "MXN".into(), 20_500_000, RateSource::Cached);
    assert_eq!(rate.convert(100_000), 2_050_000);
}

#[test]
fn test_rate_source_priority() {
    assert!(RateSource::UserOverride.priority() > RateSource::Cached.priority());
    assert!(RateSource::Cached.priority() > RateSource::Bundled.priority());
}

#[test]
fn test_currency_uppercased() {
    let rate = ExchangeRate::new("usd".into(), "eur".into(), 850_000, RateSource::Bundled);
    assert_eq!(rate.from_currency, "USD");
    assert_eq!(rate.to_currency, "EUR");
}
