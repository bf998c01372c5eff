use chrono::{TimeZone, Utc};

use finance_core::entities::budget::BudgetPeriod;
use finance_core::entities::common::{BaseEntity, SyncStatus, TransactionType};
use finance_core::entities::exchange_rate::{ExchangeRate, RateSource};
use finance_core::entities::pagination::PageRequest;
use finance_core::entities::recurring_transaction::{RecurrenceFrequency, RecurringTransaction};
use finance_core::entities::search::TransactionSearchFilter;
use finance_core::entities::{Account, Transaction, User};
use finance_core::errors::{DomainError, RequestError, StorageError};
use finance_core::ids::EntityId;
use finance_core::json::{
    account_patch_from_json, budget_patch_from_json, category_patch_from_json, recurring_patch_from_json,
    tag_patch_from_json, PatchError,
};
use finance_core::repositories::{
    InMemoryAccountRepository, InMemoryBudgetRepository, InMemoryCategoryRepository, InMemoryExchangeRateRepository,
    InMemoryRecurringTransactionRepository, InMemoryTagRepository, InMemoryTransactionRepository,
    InMemoryUserRepository,
};
use finance_core::sync::{ServerChange, SyncEngine, SyncError, SyncPayload, SyncResponse, SyncTransport};
use finance_core::repositories::columns::{budget_from_columns, recurring_from_columns};
use finance_core::time::{parse_timestamp, Timestamp};
use finance_core::use_cases::{
    AccountUseCases, BudgetUseCases, CategoryUseCases, CurrencyUseCases, RecurringTransactionUseCases,
    SearchUseCases, StatisticsUseCases, TagUseCases, TransactionUseCases,
};
use finance_core::use_cases::currency_use_cases::CachedRateInput;

/// A fresh random identifier.
fn new_entity_id() -> EntityId {
    uuid::Uuid::new_v4().as_u128()
}

/// The current instant, in whole seconds.
fn now() -> Timestamp {
    Timestamp::from_unix(chrono::Utc::now().timestamp()).unwrap()
}

/// An identifier as hyphenated UUID text.
fn entity_id_text(id: EntityId) -> String {
    uuid::Uuid::from_u128(id).to_string()
}

fn at(y: i32, m: u32, d: u32) -> Timestamp {
    Timestamp::from_unix(Utc.with_ymd_and_hms(y, m, d, 12, 0, 0).unwrap().timestamp()).unwrap()
}

fn expense(account: EntityId, amount: i64, description: &str, date: Timestamp) -> Transaction {
    Transaction::new(account, new_entity_id(), amount, TransactionType::Expense, description.to_string(), date).unwrap()
}

// ─── Identifiers ─────────────────────────────────────────────────────────────

#[test]
fn test_identifier_text_in_errors() {
    let mut accounts = InMemoryAccountRepository::new();
    let uc = AccountUseCases::new(&mut accounts);
    let id: EntityId = 0x0123_4567_89ab_cdef_0123_4567_89ab_cdef;
    let err = uc.get_account(id).unwrap_err();
    assert_eq!(err, DomainError::NotFound("Account 01234567-89ab-cdef-0123-456789abcdef not found".to_string()));
}

#[test]
fn test_accepted_identifier_text_ignores_case() {
    let id: EntityId = 0x0123_4567_89ab_cdef_0123_4567_89ab_cdef;
    let mut account = Account::new(new_entity_id(), "Main".to_string(), "USD".to_string());
    account.base = BaseEntity::with_id(id);
    let mut accounts = InMemoryAccountRepository::new();
    let mut categories = InMemoryCategoryRepository::new();
    let mut transactions = InMemoryTransactionRepository::new();
    accounts.save(&account).unwrap();
    let mut engine = SyncEngine::new(&mut accounts, &mut categories, &mut transactions, &NoServer);
    let response = SyncResponse { accepted: vec!["01234567-89AB-CDEF-0123-456789ABCDEF".to_string()], conflicts: vec![] };
    let result = engine.apply_push_response(1, &response).unwrap();
    assert_eq!(result.pushed, 1);
    assert_eq!(accounts.find_by_id(id).unwrap().unwrap().sync_status, SyncStatus::Synced);
}

#[test]
fn test_new_entities_get_distinct_identifiers() {
    assert_ne!(BaseEntity::new().id, BaseEntity::new().id);
}

/// A transport for engines whose tests never reach the server.
struct NoServer;

impl SyncTransport for NoServer {
    fn push(&self, _payload: &SyncPayload) -> Result<SyncResponse, SyncError> {
        Err(SyncError::Network("offline".to_string()))
    }

    fn pull(&self) -> Result<Vec<ServerChange>, SyncError> {
        Err(SyncError::Network("offline".to_string()))
    }
}

// ─── Errors ──────────────────────────────────────────────────────────────────

#[test]
fn test_domain_error_texts() {
    assert_eq!(DomainError::InvalidAmount("x".to_string()).describe(), "Invalid amount: x");
    assert_eq!(DomainError::NotFound("x".to_string()).describe(), "Entity not found: x");
    assert_eq!(DomainError::Validation("x".to_string()).describe(), "Validation error: x");
    assert_eq!(DomainError::Conflict("x".to_string()).describe(), "Conflict: x");
    assert_eq!(DomainError::Storage("x".to_string()).describe(), "Storage error: x");
    assert_eq!(DomainError::Sync("x".to_string()).describe(), "Sync error: x");
}

#[test]
fn test_storage_error_into_domain() {
    let e = StorageError::Query("boom".to_string()).into_domain();
    assert_eq!(e, DomainError::Storage("Query error: boom".to_string()));
    assert_eq!(StorageError::Connection("c".to_string()).describe(), "Connection error: c");
    assert_eq!(StorageError::Migration("m".to_string()).describe(), "Migration error: m");
    assert_eq!(StorageError::NotFound("n".to_string()).describe(), "Not found: n");
}

#[test]
fn test_missing_account_is_not_found() {
    let mut accounts = InMemoryAccountRepository::new();
    let uc = AccountUseCases::new(&mut accounts);
    let id = new_entity_id();
    let err = uc.get_account(id).unwrap_err();
    assert_eq!(err, DomainError::NotFound(format!("Account {} not found", entity_id_text(id))));
}

#[test]
fn test_duplicate_transaction_save_is_storage_error() {
    let mut repo = InMemoryTransactionRepository::new();
    let tx = expense(new_entity_id(), 100, "Once", now());
    repo.save(&tx).unwrap();
    let err = repo.save(&tx).unwrap_err();
    assert_eq!(err, DomainError::Storage("Query error: UNIQUE constraint failed: transactions.id".to_string()));
}

#[test]
fn test_duplicate_email_is_storage_error() {
    let mut users = InMemoryUserRepository::new();
    users.save(&User::new("A".to_string(), "same@example.com".to_string())).unwrap();
    let err = users.save(&User::new("B".to_string(), "same@example.com".to_string())).unwrap_err();
    assert_eq!(err, DomainError::Storage("Query error: UNIQUE constraint failed: users.email".to_string()));
}

#[test]
fn test_date_range_order_is_validated() {
    let mut txs = InMemoryTransactionRepository::new();
    let uc = TransactionUseCases::new(&mut txs);
    let err = uc.list_transactions_by_date_range(new_entity_id(), at(2026, 3, 1), at(2026, 2, 1)).unwrap_err();
    assert_eq!(err, DomainError::Validation("Start date must be before end date".to_string()));
}

#[test]
fn test_blank_account_name_rejected() {
    let mut accounts = InMemoryAccountRepository::new();
    let mut uc = AccountUseCases::new(&mut accounts);
    let err = uc.create_account(new_entity_id(), "   ".to_string(), "USD".to_string()).unwrap_err();
    assert!(matches!(err, DomainError::Validation(_)));
}

// ─── Repositories: reads after writes ────────────────────────────────────────

#[test]
fn test_read_after_save_update_delete() {
    let mut accounts = InMemoryAccountRepository::new();
    let account = Account::new(new_entity_id(), "Wallet".to_string(), "USD".to_string());
    accounts.save(&account).unwrap();
    assert_eq!(accounts.find_by_id(account.id()).unwrap().unwrap().name, "Wallet");

    let mut renamed = account.clone();
    renamed.name = "Purse".to_string();
    accounts.update(&renamed).unwrap();
    assert_eq!(accounts.find_by_id(account.id()).unwrap().unwrap().name, "Purse");

    accounts.delete(account.id()).unwrap();
    assert!(accounts.find_by_id(account.id()).unwrap().is_none());
    assert!(accounts.find_by_user_id(account.user_id).unwrap().is_empty());
}

#[test]
fn test_balance_is_income_minus_expenses() {
    let mut txs = InMemoryTransactionRepository::new();
    let account = new_entity_id();
    let mut uc = TransactionUseCases::new(&mut txs);
    uc.create_transaction(account, new_entity_id(), 10_000, TransactionType::Income, "Pay".to_string(), at(2026, 1, 5))
        .unwrap();
    let spent = uc
        .create_transaction(account, new_entity_id(), 2_500, TransactionType::Expense, "Food".to_string(), at(2026, 1, 6))
        .unwrap();
    assert_eq!(uc.get_balance(account).unwrap(), 7_500);

    // Deleting a transaction removes its effect on the balance.
    uc.delete_transaction(spent.id()).unwrap();
    assert_eq!(uc.get_balance(account).unwrap(), 10_000);
}

#[test]
fn test_transfer_moves_money_without_creating_it() {
    let mut txs = InMemoryTransactionRepository::new();
    let from = new_entity_id();
    let to = new_entity_id();
    let mut uc = TransactionUseCases::new(&mut txs);
    uc.create_transfer(from, to, new_entity_id(), 4_200, "Move".to_string(), at(2026, 2, 2)).unwrap();
    let a = uc.get_balance(from).unwrap();
    let b = uc.get_balance(to).unwrap();
    assert_eq!(a, -4_200);
    assert_eq!(b, 4_200);
    assert_eq!(a + b, 0);
}

#[test]
fn test_edit_transaction_bumps_version_and_pends() {
    let mut txs = InMemoryTransactionRepository::new();
    let account = new_entity_id();
    let mut uc = TransactionUseCases::new(&mut txs);
    let tx = uc
        .create_transaction(account, new_entity_id(), 100, TransactionType::Expense, "A".to_string(), at(2026, 1, 1))
        .unwrap();
    let edited = uc
        .edit_transaction(tx.id(), 300, TransactionType::Income, "B".to_string(), tx.category_id, at(2026, 1, 2))
        .unwrap();
    assert_eq!(edited.version, tx.version + 1);
    assert_eq!(edited.amount, 300);
    assert_eq!(edited.sync_status, SyncStatus::Pending);
    assert_eq!(uc.get_balance(account).unwrap(), 300);
}

// ─── Search and pagination ───────────────────────────────────────────────────

#[test]
fn test_search_results_latest_first_and_pages_cover() {
    let mut txs = InMemoryTransactionRepository::new();
    let account = new_entity_id();
    for d in 1..=5u32 {
        txs.save(&expense(account, 100 * d as i64, "Item", at(2026, 1, d))).unwrap();
    }
    let uc = SearchUseCases::new(&txs);
    let mut filter = TransactionSearchFilter { account_id: account, ..Default::default() };
    filter.limit = Some(2);
    filter.offset = Some(0);
    let first = uc.search_transactions(&filter).unwrap();
    assert_eq!(first.total_count, 5);
    assert!(first.has_more);
    let amounts: Vec<i64> = first.items.iter().map(|t| t.amount).collect();
    assert_eq!(amounts, vec![500, 400]);

    filter.offset = Some(2);
    let second = uc.search_transactions(&filter).unwrap();
    let amounts: Vec<i64> = second.items.iter().map(|t| t.amount).collect();
    assert_eq!(amounts, vec![300, 200]);

    filter.offset = Some(4);
    let last = uc.search_transactions(&filter).unwrap();
    assert_eq!(last.items.len(), 1);
    assert!(!last.has_more);
}

#[test]
fn test_search_query_is_a_like_pattern() {
    let mut txs = InMemoryTransactionRepository::new();
    let account = new_entity_id();
    txs.save(&expense(account, 1, "Groceries", at(2026, 1, 1))).unwrap();
    txs.save(&expense(account, 2, "Coffee", at(2026, 1, 2))).unwrap();
    txs.save(&expense(account, 3, "100% juice", at(2026, 1, 3))).unwrap();
    let uc = SearchUseCases::new(&txs);
    let found = |q: &str| -> Vec<i64> {
        let filter = TransactionSearchFilter { account_id: account, query: Some(q.to_string()), ..Default::default() };
        uc.search_transactions(&filter).unwrap().items.iter().map(|t| t.amount).collect()
    };
    assert_eq!(found("GROCER"), vec![1]);
    assert_eq!(found("gro%ies"), vec![1]);
    assert_eq!(found("c_ff"), vec![2]);
    assert_eq!(found("%"), vec![3, 2, 1]);
    assert_eq!(found("0%"), vec![3]);
    assert_eq!(found("tea"), Vec::<i64>::new());
}

#[test]
fn test_page_request_from_limit_offset() {
    let p = PageRequest::from_limit_offset(0, -5);
    assert_eq!((p.limit, p.offset), (50, 0));
    let p = PageRequest::from_limit_offset(10, 3);
    assert_eq!((p.limit, p.offset), (10, 3));
}

#[test]
fn test_paginated_listing() {
    let mut txs = InMemoryTransactionRepository::new();
    let account = new_entity_id();
    for d in 1..=3u32 {
        txs.save(&expense(account, d as i64, "Item", at(2026, 4, d))).unwrap();
    }
    let uc = TransactionUseCases::new(&mut txs);
    let page = uc.list_transactions_paginated(account, &PageRequest { limit: 2, offset: 1 }).unwrap();
    assert_eq!(page.total_count, 3);
    assert_eq!(page.items.len(), 2);
    assert!(!page.has_more);
}

// ─── Enumerations ────────────────────────────────────────────────────────────

#[test]
fn test_enum_text_round_trips() {
    for s in [SyncStatus::Synced, SyncStatus::Pending, SyncStatus::Conflicted] {
        assert_eq!(SyncStatus::from_str(&s.to_string()), Some(s));
    }
    for t in [TransactionType::Income, TransactionType::Expense, TransactionType::Transfer] {
        assert_eq!(TransactionType::from_str(&t.to_string()), Some(t));
    }
    for p in [BudgetPeriod::Weekly, BudgetPeriod::Monthly, BudgetPeriod::Quarterly, BudgetPeriod::Yearly] {
        assert_eq!(BudgetPeriod::from_str(&p.to_string()), Some(p));
    }
    for f in [
        RecurrenceFrequency::Daily,
        RecurrenceFrequency::Weekly,
        RecurrenceFrequency::BiWeekly,
        RecurrenceFrequency::Monthly,
        RecurrenceFrequency::Quarterly,
        RecurrenceFrequency::Yearly,
    ] {
        assert_eq!(RecurrenceFrequency::from_str(&f.to_string()), Some(f));
    }
    for r in [RateSource::Bundled, RateSource::Cached, RateSource::UserOverride] {
        assert_eq!(RateSource::from_str(&r.to_string()), Some(r));
    }
}

#[test]
fn test_frequency_parse_ignores_case() {
    assert_eq!(RecurrenceFrequency::from_str("MONTHLY"), Some(RecurrenceFrequency::Monthly));
    assert_eq!(RecurrenceFrequency::from_str("BiWeekly"), Some(RecurrenceFrequency::BiWeekly));
    assert_eq!(RecurrenceFrequency::from_str("hourly"), None);
}

// ─── Exchange rates ──────────────────────────────────────────────────────────

#[test]
fn test_conversion_rounds_toward_zero() {
    let rate = ExchangeRate::new("USD".to_string(), "EUR".to_string(), 850_000, RateSource::Bundled);
    assert_eq!(rate.convert(1001), 850);
    assert_eq!(rate.convert(-1001), -850);
    assert_eq!(rate.convert(0), 0);
}

#[test]
fn test_cached_rates_beat_bundled_but_not_overrides() {
    let mut rates = InMemoryExchangeRateRepository::new();
    let mut uc = CurrencyUseCases::new(&mut rates);
    uc.seed_bundled_rates().unwrap();
    let inputs = vec![
        CachedRateInput { from: "usd".to_string(), to: "eur".to_string(), rate: 910_000 },
        CachedRateInput { from: "USD".to_string(), to: "GBP".to_string(), rate: 780_000 },
    ];
    assert_eq!(uc.store_cached_rates(&inputs).unwrap(), 2);
    let conv = uc.convert(10_000, "USD", "EUR").unwrap();
    assert_eq!(conv.converted_amount, 9_100);

    uc.set_manual_rate("USD", "EUR", 1_000_000).unwrap();
    let conv = uc.convert(10_000, "USD", "EUR").unwrap();
    assert_eq!(conv.converted_amount, 10_000);
}

#[test]
fn test_unknown_pair_is_not_found_and_manual_rate_must_be_positive() {
    let mut rates = InMemoryExchangeRateRepository::new();
    let mut uc = CurrencyUseCases::new(&mut rates);
    let err = uc.convert(100, "AAA", "BBB").unwrap_err();
    assert_eq!(err, DomainError::NotFound("No exchange rate found for AAA → BBB".to_string()));
    let err = uc.set_manual_rate("USD", "EUR", 0).unwrap_err();
    assert_eq!(err, DomainError::Validation("Exchange rate must be positive".to_string()));
}

// ─── Recurring transactions ──────────────────────────────────────────────────

#[test]
fn test_next_occurrence_by_frequency() {
    let make = |f: RecurrenceFrequency, start: Timestamp| {
        RecurringTransaction::new(
            new_entity_id(),
            new_entity_id(),
            100,
            TransactionType::Expense,
            "Rent".to_string(),
            f,
            start,
            None,
        )
        .unwrap()
    };
    let start = at(2026, 12, 15);
    assert_eq!(make(RecurrenceFrequency::Daily, start).calculate_next_occurrence(), Some(at(2026, 12, 16)));
    assert_eq!(make(RecurrenceFrequency::Weekly, start).calculate_next_occurrence(), Some(at(2026, 12, 22)));
    assert_eq!(make(RecurrenceFrequency::BiWeekly, start).calculate_next_occurrence(), Some(at(2026, 12, 29)));
    assert_eq!(make(RecurrenceFrequency::Monthly, start).calculate_next_occurrence(), Some(at(2027, 1, 15)));
    assert_eq!(make(RecurrenceFrequency::Quarterly, start).calculate_next_occurrence(), Some(at(2027, 3, 15)));
    assert_eq!(make(RecurrenceFrequency::Yearly, start).calculate_next_occurrence(), Some(at(2027, 12, 15)));
    // A shorter month ends on its last day.
    assert_eq!(make(RecurrenceFrequency::Monthly, at(2026, 1, 31)).calculate_next_occurrence(), Some(at(2026, 2, 28)));
    assert_eq!(make(RecurrenceFrequency::Monthly, at(2028, 1, 31)).calculate_next_occurrence(), Some(at(2028, 2, 29)));
    assert_eq!(make(RecurrenceFrequency::Quarterly, at(2026, 11, 30)).calculate_next_occurrence(), Some(at(2027, 2, 28)));
    assert_eq!(make(RecurrenceFrequency::Yearly, at(2028, 2, 29)).calculate_next_occurrence(), Some(at(2029, 2, 28)));
}

#[test]
fn test_recurring_validation() {
    let bad_amount = RecurringTransaction::new(
        new_entity_id(),
        new_entity_id(),
        0,
        TransactionType::Expense,
        "X".to_string(),
        RecurrenceFrequency::Daily,
        at(2026, 1, 1),
        None,
    );
    assert_eq!(bad_amount.unwrap_err(), "Amount must be positive");
    let bad_dates = RecurringTransaction::new(
        new_entity_id(),
        new_entity_id(),
        10,
        TransactionType::Expense,
        "X".to_string(),
        RecurrenceFrequency::Daily,
        at(2026, 2, 1),
        Some(at(2026, 1, 1)),
    );
    assert_eq!(bad_dates.unwrap_err(), "End date must be after start date");
}

#[test]
fn test_process_due_creates_one_occurrence_and_advances() {
    let mut recurring = InMemoryRecurringTransactionRepository::new();
    let mut txs = InMemoryTransactionRepository::new();
    let account = new_entity_id();
    let template = {
        let mut uc = RecurringTransactionUseCases::new(&mut recurring, &mut txs);
        uc.create_recurring_transaction(
            account,
            new_entity_id(),
            1_500,
            TransactionType::Expense,
            "Gym".to_string(),
            "weekly",
            at(2026, 3, 2),
            None,
        )
        .unwrap()
    };
    let created = {
        let mut uc = RecurringTransactionUseCases::new(&mut recurring, &mut txs);
        uc.process_due_at(at(2026, 3, 10)).unwrap()
    };
    assert_eq!(created.len(), 1);
    let tx = txs.find_by_id(created[0]).unwrap().unwrap();
    assert_eq!(tx.amount, 1_500);
    assert_eq!(tx.date, at(2026, 3, 2));
    assert_eq!(tx.description, "Gym");

    let uc = RecurringTransactionUseCases::new(&mut recurring, &mut txs);
    let stored = uc.get_recurring_transaction(template.base.id).unwrap();
    assert_eq!(stored.next_occurrence, at(2026, 3, 9));
}

#[test]
fn test_process_due_now_moves_end_of_month_template_to_last_day() {
    let mut recurring = InMemoryRecurringTransactionRepository::new();
    let mut txs = InMemoryTransactionRepository::new();
    let template = {
        let mut uc = RecurringTransactionUseCases::new(&mut recurring, &mut txs);
        uc.create_recurring_transaction(
            new_entity_id(),
            new_entity_id(),
            90_000,
            TransactionType::Expense,
            "Rent".to_string(),
            "monthly",
            at(2020, 1, 31),
            None,
        )
        .unwrap()
    };
    let created = {
        let mut uc = RecurringTransactionUseCases::new(&mut recurring, &mut txs);
        uc.process_due_recurring_transactions().unwrap()
    };
    assert_eq!(created.len(), 1);
    assert_eq!(txs.find_by_id(created[0]).unwrap().unwrap().date, at(2020, 1, 31));
    let uc = RecurringTransactionUseCases::new(&mut recurring, &mut txs);
    let stored = uc.get_recurring_transaction(template.base.id).unwrap();
    assert_eq!(stored.next_occurrence, at(2020, 2, 29));
}

#[test]
fn test_process_due_skips_expired_and_future() {
    let mut recurring = InMemoryRecurringTransactionRepository::new();
    let mut txs = InMemoryTransactionRepository::new();
    let account = new_entity_id();
    let mut uc = RecurringTransactionUseCases::new(&mut recurring, &mut txs);
    uc.create_recurring_transaction(
        account,
        new_entity_id(),
        100,
        TransactionType::Expense,
        "Ended".to_string(),
        "daily",
        at(2026, 1, 1),
        Some(at(2026, 1, 3)),
    )
    .unwrap();
    uc.create_recurring_transaction(
        account,
        new_entity_id(),
        100,
        TransactionType::Expense,
        "Later".to_string(),
        "daily",
        at(2026, 6, 1),
        None,
    )
    .unwrap();
    let created = uc.process_due_at(at(2026, 2, 1)).unwrap();
    assert!(created.is_empty());
}

#[test]
fn test_unknown_frequency_rejected() {
    let mut recurring = InMemoryRecurringTransactionRepository::new();
    let mut txs = InMemoryTransactionRepository::new();
    let mut uc = RecurringTransactionUseCases::new(&mut recurring, &mut txs);
    let err = uc
        .create_recurring_transaction(
            new_entity_id(),
            new_entity_id(),
            100,
            TransactionType::Expense,
            "X".to_string(),
            "fortnightly",
            at(2026, 1, 1),
            None,
        )
        .unwrap_err();
    assert!(matches!(err, DomainError::Validation(_)));
}

// ─── Budgets ─────────────────────────────────────────────────────────────────

#[test]
fn test_budget_progress_counts_period_expenses_only() {
    let mut budgets = InMemoryBudgetRepository::new();
    let mut txs = InMemoryTransactionRepository::new();
    let account = new_entity_id();
    txs.save(&expense(account, 3_000, "In", at(2026, 5, 10))).unwrap();
    txs.save(&expense(account, 9_999, "Before", at(2026, 4, 10))).unwrap();
    txs.save(&expense(account, 7_777, "After", at(2026, 6, 10))).unwrap();
    let income = Transaction::new(account, new_entity_id(), 5_000, TransactionType::Income, "Pay".to_string(), at(2026, 5, 11))
        .unwrap();
    txs.save(&income).unwrap();

    let mut uc = BudgetUseCases::new(&mut budgets, &txs);
    let budget = uc.create_budget(account, None, "May".to_string(), 10_000, "monthly", at(2026, 5, 1)).unwrap();
    let progress = uc.get_budget_progress(budget.base.id).unwrap();
    assert_eq!(progress.spent, 3_000);
    assert_eq!(progress.remaining, 7_000);
    assert_eq!(progress.period_end, at(2026, 6, 1));
}

#[test]
fn test_budget_period_must_be_known() {
    let mut budgets = InMemoryBudgetRepository::new();
    let txs = InMemoryTransactionRepository::new();
    let mut uc = BudgetUseCases::new(&mut budgets, &txs);
    let err = uc.create_budget(new_entity_id(), None, "B".to_string(), 100, "decade", at(2026, 1, 1)).unwrap_err();
    assert!(matches!(err, DomainError::Validation(_)));
}

// ─── Categories, tags, statistics ────────────────────────────────────────────

#[test]
fn test_seed_twice_returns_existing() {
    let mut categories = InMemoryCategoryRepository::new();
    let user = new_entity_id();
    let mut uc = CategoryUseCases::new(&mut categories);
    let first = uc.seed_default_categories(user).unwrap();
    let second = uc.seed_default_categories(user).unwrap();
    assert_eq!(first.len(), 18);
    let first_ids: Vec<EntityId> = first.iter().map(|c| c.id()).collect();
    let second_ids: Vec<EntityId> = second.iter().map(|c| c.id()).collect();
    assert_eq!(first_ids, second_ids);
    assert_eq!(uc.list_categories(user).unwrap().len(), first.len());
}

#[test]
fn test_tag_link_twice_is_one_link_and_delete_unlinks() {
    let mut tags = InMemoryTagRepository::new();
    let mut uc = TagUseCases::new(&mut tags);
    let tag = uc.create_tag(new_entity_id(), "Trip".to_string(), Some("#00FF00".to_string())).unwrap();
    let tx = new_entity_id();
    uc.add_tag_to_transaction(tx, tag.id()).unwrap();
    uc.add_tag_to_transaction(tx, tag.id()).unwrap();
    assert_eq!(uc.get_transactions_by_tag(tag.id()).unwrap(), vec![tx]);
    uc.delete_tag(tag.id()).unwrap();
    assert!(uc.get_transaction_tags(tx).unwrap().is_empty());
    assert!(uc.get_transactions_by_tag(tag.id()).unwrap().is_empty());
}

#[test]
fn test_unlink_undoes_link() {
    let mut tags = InMemoryTagRepository::new();
    let mut uc = TagUseCases::new(&mut tags);
    let tag = uc.create_tag(new_entity_id(), "Work".to_string(), None).unwrap();
    let tx = new_entity_id();
    uc.add_tag_to_transaction(tx, tag.id()).unwrap();
    assert_eq!(uc.get_transaction_tags(tx).unwrap().len(), 1);
    uc.remove_tag_from_transaction(tx, tag.id()).unwrap();
    assert!(uc.get_transaction_tags(tx).unwrap().is_empty());
    assert!(uc.get_transactions_by_tag(tag.id()).unwrap().is_empty());
}

#[test]
fn test_daily_spending_keys_by_date_text() {
    let mut txs = InMemoryTransactionRepository::new();
    let categories = InMemoryCategoryRepository::new();
    let account = new_entity_id();
    txs.save(&expense(account, 1_000, "A", at(2026, 7, 3))).unwrap();
    txs.save(&expense(account, 500, "B", at(2026, 7, 3))).unwrap();
    txs.save(&expense(account, 200, "C", at(2026, 7, 4))).unwrap();
    let stats = StatisticsUseCases::new(&txs, &categories);
    let days = stats.get_daily_spending(account, at(2026, 7, 1), at(2026, 7, 31)).unwrap();
    let got: Vec<(String, i64, usize)> = days.iter().map(|d| (d.date.clone(), d.amount, d.transaction_count)).collect();
    assert_eq!(got, vec![("2026-07-03".to_string(), 1_500, 2), ("2026-07-04".to_string(), 200, 1)]);

    let months = stats.get_monthly_trends(account, at(2026, 7, 1), at(2026, 7, 31)).unwrap();
    assert_eq!(months.len(), 1);
    assert_eq!((months[0].year, months[0].month, months[0].expenses), (2026, 7, 1_700));
}

#[test]
fn test_tag_color_must_be_hex() {
    let mut tags = InMemoryTagRepository::new();
    let mut uc = TagUseCases::new(&mut tags);
    let user = new_entity_id();
    for bad in ["#GGGGGG", "#12345Z", "#ff573", "ff5733", "#F5"] {
        let err = uc.create_tag(user, "T".to_string(), Some(bad.to_string())).unwrap_err();
        assert_eq!(err, DomainError::Validation("Color must be a hex string like #FF5733 or #F53".to_string()));
    }
    for good in ["#F53", "#ff5733", "#00aaFF"] {
        assert!(uc.create_tag(user, "T".to_string(), Some(good.to_string())).is_ok());
    }
}

#[test]
fn test_transfer_incoming_side_is_described_as_transfer() {
    let mut txs = InMemoryTransactionRepository::new();
    let mut uc = TransactionUseCases::new(&mut txs);
    let (outgoing, incoming) = uc
        .create_transfer(new_entity_id(), new_entity_id(), new_entity_id(), 10_000, "To savings".to_string(), at(2026, 5, 1))
        .unwrap();
    assert_eq!(outgoing.description, "To savings");
    assert_eq!(incoming.description, "Transfer: To savings");
    assert_eq!(outgoing.linked_transaction_id, Some(incoming.id()));
    assert_eq!(incoming.linked_transaction_id, Some(outgoing.id()));
}

#[test]
fn test_monthly_budget_from_the_31st_ends_on_the_last_day() {
    let mut budgets = InMemoryBudgetRepository::new();
    let txs = InMemoryTransactionRepository::new();
    let mut uc = BudgetUseCases::new(&mut budgets, &txs);
    let budget = uc.create_budget(new_entity_id(), None, "Jan".to_string(), 100, "monthly", at(2025, 1, 31)).unwrap();
    assert_eq!(budget.period_end_date(), Some(at(2025, 2, 28)));
    let progress = uc.get_budget_progress(budget.base.id).unwrap();
    assert_eq!(progress.period_end, at(2025, 2, 28));
    assert_eq!(progress.remaining, 100);
}

#[test]
fn test_stored_columns_read_back() {
    let id = "01234567-89ab-cdef-0123-456789abcdef";
    let when = "2026-02-15T10:30:45Z";
    let b = budget_from_columns(id, id, None, "B".to_string(), 500, "weekly", when, when, when, None).unwrap();
    assert_eq!(b.base.id, 0x0123_4567_89ab_cdef_0123_4567_89ab_cdef);
    assert_eq!(b.period, BudgetPeriod::Weekly);
    assert_eq!(b.start_date, parse_timestamp(when).unwrap());
    let b = budget_from_columns(id, id, None, "B".to_string(), 500, "fortnightly", when, when, when, None).unwrap();
    assert_eq!(b.period, BudgetPeriod::Monthly);
    assert!(budget_from_columns("x", id, None, "B".to_string(), 500, "weekly", when, when, when, None).is_err());
    assert!(budget_from_columns(id, id, None, "B".to_string(), 500, "weekly", "yesterday", when, when, None).is_err());
    let t = recurring_from_columns(id, id, id, 7, "??", "D".to_string(), "??", when, None, when, true, when, when, None)
        .unwrap();
    assert_eq!(t.transaction_type, TransactionType::Expense);
    assert_eq!(t.frequency, RecurrenceFrequency::Monthly);
    assert_eq!(parse_timestamp("2026-02-15T10:30:45+01:00").unwrap().unix_seconds() + 3600, parse_timestamp(when).unwrap().unix_seconds());
    assert_eq!(parse_timestamp("not a date"), None);
}

#[test]
fn test_recurring_from_text_arguments() {
    let mut recurring = InMemoryRecurringTransactionRepository::new();
    let mut txs = InMemoryTransactionRepository::new();
    let mut uc = RecurringTransactionUseCases::new(&mut recurring, &mut txs);
    let id = "01234567-89ab-cdef-0123-456789abcdef";
    let err = uc
        .create_recurring_transaction_from_text("bad", id, 100, "expense", "Rent".to_string(), "monthly", "2026-01-31T00:00:00Z", None)
        .unwrap_err();
    assert_eq!(err, RequestError::InvalidInput("Invalid account_id UUID".to_string()));
    let err = uc
        .create_recurring_transaction_from_text(id, id, 100, "expense", "Rent".to_string(), "monthly", "soon", None)
        .unwrap_err();
    assert_eq!(err, RequestError::InvalidInput("Invalid start_date (expected RFC3339)".to_string()));
    let t = uc
        .create_recurring_transaction_from_text(id, id, 100, "expense", "Rent".to_string(), "monthly", "2026-01-31T00:00:00Z", None)
        .unwrap();
    assert_eq!(t.frequency, RecurrenceFrequency::Monthly);
    assert_eq!(t.calculate_next_occurrence(), parse_ts("2026-02-28T00:00:00Z"));
}

fn parse_ts(text: &str) -> Option<Timestamp> {
    parse_timestamp(text)
}

// ─── Patches read from JSON ──────────────────────────────────────────────────

#[test]
fn test_account_patch_reads_string_members() {
    let p = account_patch_from_json(r#"{"name":"Main","currency":5}"#).unwrap();
    assert_eq!(p.name, Some("Main".to_string()));
    assert_eq!(p.currency, None);
    let p = account_patch_from_json(r#"{"currency":"EUR"}"#).unwrap();
    assert_eq!(p.name, None);
    assert_eq!(p.currency, Some("EUR".to_string()));
}

#[test]
fn test_patch_that_is_not_json_is_refused() {
    let err = account_patch_from_json(r#"{"name":"#).err().unwrap();
    match err {
        PatchError::InvalidJson(m) => assert!(m.starts_with("Invalid JSON: ") && m.len() > "Invalid JSON: ".len()),
        PatchError::InvalidField(m) => panic!("unexpected field error {m}"),
    }
    assert!(matches!(tag_patch_from_json("not json"), Err(PatchError::InvalidJson(_))));
}

#[test]
fn test_category_and_tag_patches_clear_with_null() {
    let p = category_patch_from_json(r#"{"icon":null}"#).unwrap();
    assert_eq!(p.name, None);
    assert_eq!(p.icon, Some(None));
    let p = category_patch_from_json(r#"{"name":"Food","icon":"cart"}"#).unwrap();
    assert_eq!(p.name, Some("Food".to_string()));
    assert_eq!(p.icon, Some(Some("cart".to_string())));
    let p = category_patch_from_json("{}").unwrap();
    assert_eq!(p.icon, None);
    let p = tag_patch_from_json(r##"{"color":"#ff5733"}"##).unwrap();
    assert_eq!(p.color, Some(Some("#ff5733".to_string())));
    let p = tag_patch_from_json(r#"{"name":"Trip","color":null}"#).unwrap();
    assert_eq!(p.name, Some("Trip".to_string()));
    assert_eq!(p.color, Some(None));
}

#[test]
fn test_budget_patch_reads_amount_and_period() {
    let p = budget_patch_from_json(r#"{"name":"Food","amount":50000,"period":"weekly"}"#).unwrap();
    assert_eq!(p.name, Some("Food".to_string()));
    assert_eq!(p.amount, Some(50_000));
    assert_eq!(p.period, Some("weekly".to_string()));
    let p = budget_patch_from_json(r#"{"amount":"50000"}"#).unwrap();
    assert_eq!(p.amount, None);
}

#[test]
fn test_recurring_patch_reads_members_and_checks_category() {
    let category = new_entity_id();
    let text = format!(
        r#"{{"amount":1200,"description":"Rent","is_active":false,"category_id":"{}"}}"#,
        entity_id_text(category)
    );
    let p = recurring_patch_from_json(&text).unwrap();
    assert_eq!(p.amount, Some(1_200));
    assert_eq!(p.description, Some("Rent".to_string()));
    assert_eq!(p.is_active, Some(false));
    assert_eq!(p.category_id, Some(category));
    let p = recurring_patch_from_json("[1, 2]").unwrap();
    assert_eq!((p.amount, p.description, p.is_active, p.category_id), (None, None, None, None));
    let err = recurring_patch_from_json(r#"{"category_id":"nope"}"#).err().unwrap();
    assert_eq!(err, PatchError::InvalidField("Invalid category_id UUID".to_string()));
}
