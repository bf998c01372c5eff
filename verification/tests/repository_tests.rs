use finance_core::entities::exchange_rate::RateSource;
use finance_core::entities::search::TransactionSearchFilter;
use finance_core::entities::{Account, Category, TransactionType, User};
use finance_core::ids::EntityId;
use finance_core::repositories::{
    InMemoryAccountRepository, InMemoryBudgetRepository, InMemoryCategoryRepository, InMemoryExchangeRateRepository,
    InMemoryTagRepository, InMemoryTransactionRepository, InMemoryUserRepository,
};
use finance_core::time::Timestamp;
use finance_core::use_cases::{
    AccountUseCases, BudgetUseCases, CategoryUseCases, CurrencyUseCases, SearchUseCases, StatisticsUseCases,
    TagUseCases, TransactionUseCases,
};

/// A fresh random identifier.
fn new_entity_id() -> EntityId {
    uuid::Uuid::new_v4().as_u128()
}

/// The current instant, in whole seconds.
fn now() -> Timestamp {
    Timestamp::from_unix(chrono::Utc::now().timestamp()).unwrap()
}

fn days_from_now(days: i64) -> Timestamp {
    now().plus_days(days).unwrap()
}

fn create_test_user(users: &mut InMemoryUserRepository) -> User {
    let email = format!("test-{}@example.com", new_entity_id());
    let user = User::new("Test User".to_string(), email);
    users.save(&user).unwrap();
    user
}

fn create_test_account(accounts: &mut InMemoryAccountRepository, user_id: EntityId) -> Account {
    let mut use_cases = AccountUseCases::new(accounts);
    use_cases.create_account(user_id, "Test Account".to_string(), "USD".to_string()).unwrap()
}

fn create_test_category(categories: &mut InMemoryCategoryRepository, user_id: EntityId) -> Category {
    let mut use_cases = CategoryUseCases::new(categories);
    use_cases.create_category(user_id, "Food".to_string(), Some("🍕".to_string())).unwrap()
}

struct Fixture {
    users: InMemoryUserRepository,
    accounts: InMemoryAccountRepository,
    categories: InMemoryCategoryRepository,
    transactions: InMemoryTransactionRepository,
}

fn setup() -> Fixture {
    Fixture {
        users: InMemoryUserRepository::new(),
        accounts: InMemoryAccountRepository::new(),
        categories: InMemoryCategoryRepository::new(),
        transactions: InMemoryTransactionRepository::new(),
    }
}

fn setup_with_account() -> (Fixture, User, Account, Category) {
    let mut db = setup();
    let user = create_test_user(&mut db.users);
    let account = create_test_account(&mut db.accounts, user.id());
    let category = create_test_category(&mut db.categories, user.id());
    (db, user, account, category)
}

#[test]
fn test_user_save_and_find() {
    let mut repo = InMemoryUserRepository::new();
    let user = User::new("Alice".to_string(), "alice@example.com".to_string());
    repo.save(&user).unwrap();

    let found = repo.find_by_id(user.id()).unwrap();
    assert!(found.is_some());
    assert_eq!(found.unwrap().name, "Alice");
}

#[test]
fn test_user_find_by_email() {
    let mut repo = InMemoryUserRepository::new();
    let user = User::new("Bob".to_string(), "bob@example.com".to_string());
    repo.save(&user).unwrap();

    let found = repo.find_by_email("bob@example.com").unwrap();
    assert!(found.is_some());
    assert_eq!(found.unwrap().name, "Bob");
}

#[test]
fn test_user_soft_delete() {
    let mut repo = InMemoryUserRepository::new();
    let user = User::new("Charlie".to_string(), "charlie@example.com".to_string());
    repo.save(&user).unwrap();
    repo.delete(user.id()).unwrap();

    let found = repo.find_by_id(user.id()).unwrap();
    assert!(found.is_none());
}

#[test]
fn test_account_create_and_find() {
    let mut db = setup();
    let user = create_test_user(&mut db.users);
    let mut use_cases = AccountUseCases::new(&mut db.accounts);
    let account = use_cases.create_account(user.id(), "Checking".to_string(), "USD".to_string()).unwrap();

    let found = db.accounts.find_by_id(account.id()).unwrap();
    assert!(found.is_some());
    assert_eq!(found.unwrap().name, "Checking");
}

#[test]
fn test_account_list_by_user() {
    let mut db = setup();
    let user = create_test_user(&mut db.users);
    let mut use_cases = AccountUseCases::new(&mut db.accounts);
    use_cases.create_account(user.id(), "Checking".to_string(), "USD".to_string()).unwrap();
    use_cases.create_account(user.id(), "Savings".to_string(), "USD".to_string()).unwrap();

    let accounts = use_cases.list_accounts(user.id()).unwrap();
    assert_eq!(accounts.len(), 2);
}

#[test]
fn test_account_empty_name_fails() {
    let mut db = setup();
    let user = create_test_user(&mut db.users);
    let mut use_cases = AccountUseCases::new(&mut db.accounts);

    let result = use_cases.create_account(user.id(), "".to_string(), "USD".to_string());
    assert!(result.is_err());
}

#[test]
fn test_account_pending_sync() {
    let mut db = setup();
    let user = create_test_user(&mut db.users);
    let mut use_cases = AccountUseCases::new(&mut db.accounts);
    use_cases.create_account(user.id(), "Account1".to_string(), "USD".to_string()).unwrap();

    let pending = db.accounts.find_pending_sync().unwrap();
    assert_eq!(pending.len(), 1);
}

#[test]
fn test_category_create_and_find() {
    let mut db = setup();
    let user = create_test_user(&mut db.users);
    let mut use_cases = CategoryUseCases::new(&mut db.categories);
    let category = use_cases.create_category(user.id(), "Transport".to_string(), None).unwrap();

    let found = db.categories.find_by_id(category.id()).unwrap();
    assert!(found.is_some());
    assert_eq!(found.unwrap().name, "Transport");
}

#[test]
fn test_seed_default_categories() {
    let mut db = setup();
    let user = create_test_user(&mut db.users);
    let mut use_cases = CategoryUseCases::new(&mut db.categories);

    let categories = use_cases.seed_default_categories(user.id()).unwrap();
    assert_eq!(categories.len(), 18);
    assert_eq!(categories[0].name, "Salary");
    assert_eq!(categories[0].icon, Some("💼".to_string()));
    assert_eq!(categories[17].name, "Other");
    assert_eq!(categories[17].icon, Some("💰".to_string()));
}

#[test]
fn test_seed_default_categories_idempotent() {
    let mut db = setup();
    let user = create_test_user(&mut db.users);
    let mut use_cases = CategoryUseCases::new(&mut db.categories);

    let first = use_cases.seed_default_categories(user.id()).unwrap();
    assert_eq!(first.len(), 18);

    let second = use_cases.seed_default_categories(user.id()).unwrap();
    assert_eq!(second.len(), 18);

    assert_eq!(first[0].id(), second[0].id());
}

#[test]
fn test_seed_skipped_when_categories_exist() {
    let mut db = setup();
    let user = create_test_user(&mut db.users);
    let mut use_cases = CategoryUseCases::new(&mut db.categories);

    use_cases.create_category(user.id(), "My Custom".to_string(), Some("🔥".to_string())).unwrap();

    let categories = use_cases.seed_default_categories(user.id()).unwrap();
    assert_eq!(categories.len(), 1);
    assert_eq!(categories[0].name, "My Custom");
}

#[test]
fn test_transaction_create_and_find() {
    let (mut db, _user, account, category) = setup_with_account();
    let mut use_cases = TransactionUseCases::new(&mut db.transactions);
    let tx = use_cases
        .create_transaction(account.id(), category.id(), 5000, TransactionType::Expense, "Dinner".to_string(), now())
        .unwrap();

    let found = db.transactions.find_by_id(tx.id()).unwrap();
    assert!(found.is_some());
    assert_eq!(found.unwrap().amount, 5000);
}

#[test]
fn test_transaction_edit() {
    let (mut db, _user, account, category) = setup_with_account();
    let mut use_cases = TransactionUseCases::new(&mut db.transactions);
    let tx = use_cases
        .create_transaction(account.id(), category.id(), 1000, TransactionType::Expense, "Coffee".to_string(), now())
        .unwrap();

    let edited = use_cases
        .edit_transaction(tx.id(), 2000, TransactionType::Income, "Refund".to_string(), category.id(), now())
        .unwrap();

    assert_eq!(edited.amount, 2000);
    assert_eq!(edited.description, "Refund");
    assert_eq!(edited.version, 2);
}

#[test]
fn repository_tests_test_transaction_soft_delete() {
    let (mut db, _user, account, category) = setup_with_account();
    let mut use_cases = TransactionUseCases::new(&mut db.transactions);
    let tx = use_cases
        .create_transaction(account.id(), category.id(), 500, TransactionType::Expense, "Snack".to_string(), now())
        .unwrap();

    use_cases.delete_transaction(tx.id()).unwrap();

    let found = db.transactions.find_by_id(tx.id()).unwrap();
    assert!(found.is_some());
    assert!(found.unwrap().base.is_deleted());

    let active = db.transactions.find_by_account_id(account.id()).unwrap();
    assert_eq!(active.len(), 0);
}

#[test]
fn test_balance_calculation() {
    let (mut db, _user, account, category) = setup_with_account();
    let mut use_cases = TransactionUseCases::new(&mut db.transactions);

    use_cases
        .create_transaction(account.id(), category.id(), 10000, TransactionType::Income, "Salary".to_string(), now())
        .unwrap();
    use_cases
        .create_transaction(account.id(), category.id(), 3000, TransactionType::Expense, "Rent".to_string(), now())
        .unwrap();
    use_cases
        .create_transaction(account.id(), category.id(), 1500, TransactionType::Transfer, "To savings".to_string(), now())
        .unwrap();

    let balance = use_cases.get_balance(account.id()).unwrap();
    assert_eq!(balance, 5500);
}

#[test]
fn test_balance_excludes_deleted_transactions() {
    let (mut db, _user, account, category) = setup_with_account();
    let mut use_cases = TransactionUseCases::new(&mut db.transactions);

    use_cases
        .create_transaction(account.id(), category.id(), 10000, TransactionType::Income, "Salary".to_string(), now())
        .unwrap();
    let tx = use_cases
        .create_transaction(account.id(), category.id(), 5000, TransactionType::Expense, "Mistake".to_string(), now())
        .unwrap();

    use_cases.delete_transaction(tx.id()).unwrap();

    let balance = use_cases.get_balance(account.id()).unwrap();
    assert_eq!(balance, 10000);
}

#[test]
fn test_transaction_date_range_query() {
    let (mut db, _user, account, category) = setup_with_account();
    let mut use_cases = TransactionUseCases::new(&mut db.transactions);

    let now = now();
    let yesterday = now.plus_days(-1).unwrap();
    let two_days_ago = now.plus_days(-2).unwrap();

    use_cases
        .create_transaction(account.id(), category.id(), 1000, TransactionType::Expense, "Yesterday".to_string(), yesterday)
        .unwrap();
    use_cases
        .create_transaction(account.id(), category.id(), 2000, TransactionType::Expense, "Today".to_string(), now)
        .unwrap();

    let txs = use_cases.list_transactions_by_date_range(account.id(), two_days_ago, now).unwrap();
    assert_eq!(txs.len(), 2);
}

#[test]
fn test_pending_sync_transactions() {
    let (mut db, _user, account, category) = setup_with_account();
    let mut use_cases = TransactionUseCases::new(&mut db.transactions);

    use_cases
        .create_transaction(account.id(), category.id(), 1000, TransactionType::Expense, "Pending".to_string(), now())
        .unwrap();

    let pending = use_cases.get_pending_sync().unwrap();
    assert_eq!(pending.len(), 1);
}

#[test]
fn test_income_vs_expenses_date_range() {
    let (mut db, _user, account, category) = setup_with_account();
    let now = now();
    let start = days_from_now(-30);
    let end = days_from_now(1);
    {
        let mut tx_use_cases = TransactionUseCases::new(&mut db.transactions);
        tx_use_cases
            .create_transaction(account.id(), category.id(), 500_00, TransactionType::Income, "Salary".to_string(), now)
            .unwrap();
        tx_use_cases
            .create_transaction(account.id(), category.id(), 200_00, TransactionType::Expense, "Groceries".to_string(), now)
            .unwrap();
        tx_use_cases
            .create_transaction(account.id(), category.id(), 100_00, TransactionType::Transfer, "Move to savings".to_string(), now)
            .unwrap();
    }

    let stats_use_cases = StatisticsUseCases::new(&db.transactions, &db.categories);
    let summary = stats_use_cases.get_income_vs_expenses(account.id(), start, end).unwrap();

    assert_eq!(summary.income, 500_00);
    assert_eq!(summary.expenses, 200_00);
    assert_eq!(summary.transfers, 100_00);
    assert_eq!(summary.net, 200_00);
}

#[test]
fn test_spending_by_category() {
    let mut db = setup();
    let user = create_test_user(&mut db.users);
    let account = create_test_account(&mut db.accounts, user.id());
    let (food, transport) = {
        let mut cat_use_cases = CategoryUseCases::new(&mut db.categories);
        let food = cat_use_cases.create_category(user.id(), "Food".to_string(), Some("🍕".to_string())).unwrap();
        let transport = cat_use_cases.create_category(user.id(), "Transport".to_string(), Some("🚗".to_string())).unwrap();
        (food, transport)
    };

    let now = now();
    let start = days_from_now(-30);
    let end = days_from_now(1);
    {
        let mut tx_use_cases = TransactionUseCases::new(&mut db.transactions);
        tx_use_cases
            .create_transaction(account.id(), food.id(), 150_00, TransactionType::Expense, "Lunch".to_string(), now)
            .unwrap();
        tx_use_cases
            .create_transaction(account.id(), food.id(), 80_00, TransactionType::Expense, "Dinner".to_string(), now)
            .unwrap();
        tx_use_cases
            .create_transaction(account.id(), transport.id(), 50_00, TransactionType::Expense, "Uber".to_string(), now)
            .unwrap();
    }

    let stats = StatisticsUseCases::new(&db.transactions, &db.categories);
    let spending = stats.get_spending_by_category(account.id(), start, end).unwrap();

    assert_eq!(spending.len(), 2);

    let food_spend = spending.iter().find(|s| s.category_id == food.id()).unwrap();
    assert_eq!(food_spend.total_amount, 230_00);
    assert_eq!(food_spend.transaction_count, 2);

    let transport_spend = spending.iter().find(|s| s.category_id == transport.id()).unwrap();
    assert_eq!(transport_spend.total_amount, 50_00);
    assert_eq!(transport_spend.transaction_count, 1);
}

#[test]
fn test_income_vs_expenses_excludes_out_of_range() {
    let (mut db, _user, account, category) = setup_with_account();
    let now = now();
    {
        let mut tx_use_cases = TransactionUseCases::new(&mut db.transactions);
        tx_use_cases
            .create_transaction(account.id(), category.id(), 100_00, TransactionType::Income, "In range".to_string(), now)
            .unwrap();
        tx_use_cases
            .create_transaction(
                account.id(),
                category.id(),
                999_00,
                TransactionType::Income,
                "Out of range".to_string(),
                days_from_now(-60),
            )
            .unwrap();
    }

    let stats = StatisticsUseCases::new(&db.transactions, &db.categories);
    let summary = stats.get_income_vs_expenses(account.id(), days_from_now(-30), days_from_now(1)).unwrap();

    assert_eq!(summary.income, 100_00);
    assert_eq!(summary.expenses, 0);
}

#[test]
fn test_seed_bundled_rates() {
    let mut repo = InMemoryExchangeRateRepository::new();
    let mut use_cases = CurrencyUseCases::new(&mut repo);

    let count = use_cases.seed_bundled_rates().unwrap();
    assert!(count > 0);

    let rate = repo.find_best_rate("USD", "EUR").unwrap();
    assert!(rate.is_some());
    let rate = rate.unwrap();
    assert_eq!(rate.source, RateSource::Bundled);
}

#[test]
fn test_convert_currency() {
    let mut repo = InMemoryExchangeRateRepository::new();
    let mut use_cases = CurrencyUseCases::new(&mut repo);

    use_cases.seed_bundled_rates().unwrap();

    let result = use_cases.convert(10_000, "USD", "EUR").unwrap();
    assert_eq!(result.from_currency, "USD");
    assert_eq!(result.to_currency, "EUR");
    assert!(result.converted_amount > 0);
    assert!(result.converted_amount < 10_000);
}

#[test]
fn test_same_currency_conversion() {
    let mut repo = InMemoryExchangeRateRepository::new();
    let use_cases = CurrencyUseCases::new(&mut repo);

    let result = use_cases.convert(5_000, "USD", "USD").unwrap();
    assert_eq!(result.converted_amount, 5_000);
}

#[test]
fn test_user_override_takes_priority() {
    let mut repo = InMemoryExchangeRateRepository::new();
    {
        let mut use_cases = CurrencyUseCases::new(&mut repo);
        use_cases.seed_bundled_rates().unwrap();
        // 0.95 in fixed point
        use_cases.set_manual_rate("USD", "EUR", 950_000).unwrap();
    }

    let rate = repo.find_best_rate("USD", "EUR").unwrap().unwrap();
    assert_eq!(rate.source, RateSource::UserOverride);

    let use_cases = CurrencyUseCases::new(&mut repo);
    let result = use_cases.convert(10_000, "USD", "EUR").unwrap();
    assert_eq!(result.converted_amount, 9_500);
}

#[test]
fn test_rate_freshness() {
    let mut repo = InMemoryExchangeRateRepository::new();
    let mut use_cases = CurrencyUseCases::new(&mut repo);

    use_cases.seed_bundled_rates().unwrap();

    let freshness = use_cases.get_rate_freshness("USD", "EUR").unwrap();
    assert!(freshness.is_some());
    let freshness = freshness.unwrap();
    assert!(freshness.age_seconds >= 0);
}

#[test]
fn test_search_by_description() {
    let (mut db, _user, account, category) = setup_with_account();
    let now = now();
    {
        let mut tx_use_cases = TransactionUseCases::new(&mut db.transactions);
        tx_use_cases
            .create_transaction(account.id(), category.id(), 100_00, TransactionType::Expense, "Coffee at Starbucks".to_string(), now)
            .unwrap();
        tx_use_cases
            .create_transaction(account.id(), category.id(), 50_00, TransactionType::Expense, "Netflix subscription".to_string(), now)
            .unwrap();
    }

    let search = SearchUseCases::new(&db.transactions);
    let filter = TransactionSearchFilter {
        account_id: account.id(),
        query: Some("coffee".to_string()),
        ..Default::default()
    };

    let results = search.search_transactions(&filter).unwrap();
    assert_eq!(results.items.len(), 1);
    assert!(results.items[0].description.contains("Coffee"));
}

#[test]
fn test_search_by_amount_range() {
    let (mut db, _user, account, category) = setup_with_account();
    let now = now();
    {
        let mut tx_use_cases = TransactionUseCases::new(&mut db.transactions);
        tx_use_cases
            .create_transaction(account.id(), category.id(), 10_00, TransactionType::Expense, "Small".to_string(), now)
            .unwrap();
        tx_use_cases
            .create_transaction(account.id(), category.id(), 500_00, TransactionType::Expense, "Medium".to_string(), now)
            .unwrap();
        tx_use_cases
            .create_transaction(account.id(), category.id(), 5000_00, TransactionType::Expense, "Large".to_string(), now)
            .unwrap();
    }

    let search = SearchUseCases::new(&db.transactions);
    let filter = TransactionSearchFilter {
        account_id: account.id(),
        min_amount: Some(100_00),
        max_amount: Some(1000_00),
        ..Default::default()
    };

    let results = search.search_transactions(&filter).unwrap();
    assert_eq!(results.items.len(), 1);
    assert_eq!(results.items[0].description, "Medium");
}

#[test]
fn test_search_by_transaction_type() {
    let (mut db, _user, account, category) = setup_with_account();
    let now = now();
    {
        let mut tx_use_cases = TransactionUseCases::new(&mut db.transactions);
        tx_use_cases
            .create_transaction(account.id(), category.id(), 100_00, TransactionType::Income, "Salary".to_string(), now)
            .unwrap();
        tx_use_cases
            .create_transaction(account.id(), category.id(), 50_00, TransactionType::Expense, "Lunch".to_string(), now)
            .unwrap();
    }

    let search = SearchUseCases::new(&db.transactions);
    let filter = TransactionSearchFilter {
        account_id: account.id(),
        transaction_type: Some(TransactionType::Income),
        ..Default::default()
    };

    let results = search.search_transactions(&filter).unwrap();
    assert_eq!(results.items.len(), 1);
    assert_eq!(results.items[0].description, "Salary");
}

#[test]
fn test_search_with_pagination() {
    let (mut db, _user, account, category) = setup_with_account();
    let now = now();
    {
        let mut tx_use_cases = TransactionUseCases::new(&mut db.transactions);
        for i in 0..5i64 {
            tx_use_cases
                .create_transaction(account.id(), category.id(), (i + 1) * 100, TransactionType::Expense, format!("Item {i}"), now)
                .unwrap();
        }
    }

    let search = SearchUseCases::new(&db.transactions);

    let filter = TransactionSearchFilter { account_id: account.id(), limit: Some(2), offset: Some(0), ..Default::default() };
    let page1 = search.search_transactions(&filter).unwrap();
    assert_eq!(page1.items.len(), 2);
    assert!(page1.has_more);
    assert_eq!(page1.total_count, 5);

    let filter = TransactionSearchFilter { account_id: account.id(), limit: Some(2), offset: Some(2), ..Default::default() };
    let page2 = search.search_transactions(&filter).unwrap();
    assert_eq!(page2.items.len(), 2);
    assert!(page2.has_more);

    let filter = TransactionSearchFilter { account_id: account.id(), limit: Some(2), offset: Some(4), ..Default::default() };
    let page3 = search.search_transactions(&filter).unwrap();
    assert_eq!(page3.items.len(), 1);
    assert!(!page3.has_more);
}

#[test]
fn test_search_combined_filters() {
    let (mut db, user, account, category) = setup_with_account();
    let transport = {
        let mut cat_uc = CategoryUseCases::new(&mut db.categories);
        cat_uc.create_category(user.id(), "Transport".to_string(), Some("🚗".to_string())).unwrap()
    };

    let now = now();
    {
        let mut tx_use_cases = TransactionUseCases::new(&mut db.transactions);
        tx_use_cases
            .create_transaction(account.id(), category.id(), 200_00, TransactionType::Expense, "Pizza delivery".to_string(), now)
            .unwrap();
        tx_use_cases
            .create_transaction(account.id(), transport.id(), 300_00, TransactionType::Expense, "Uber ride".to_string(), now)
            .unwrap();
        tx_use_cases
            .create_transaction(account.id(), category.id(), 50_00, TransactionType::Income, "Refund pizza".to_string(), now)
            .unwrap();
    }

    let search = SearchUseCases::new(&db.transactions);
    let filter = TransactionSearchFilter {
        account_id: account.id(),
        query: Some("pizza".to_string()),
        category_id: Some(category.id()),
        transaction_type: Some(TransactionType::Expense),
        ..Default::default()
    };

    let results = search.search_transactions(&filter).unwrap();
    assert_eq!(results.items.len(), 1);
    assert_eq!(results.items[0].description, "Pizza delivery");
}

#[test]
fn test_tag_create_and_find() {
    let mut db = setup();
    let user = create_test_user(&mut db.users);
    let mut repo = InMemoryTagRepository::new();
    let mut use_cases = TagUseCases::new(&mut repo);

    let tag = use_cases.create_tag(user.id(), "Vacation".to_string(), Some("#FF5733".to_string())).unwrap();

    let found = repo.find_by_id(tag.id()).unwrap();
    assert!(found.is_some());
    let found = found.unwrap();
    assert_eq!(found.name, "Vacation");
    assert_eq!(found.color, Some("#FF5733".to_string()));
}

#[test]
fn test_tag_list_by_user() {
    let mut db = setup();
    let user = create_test_user(&mut db.users);
    let mut repo = InMemoryTagRepository::new();
    let mut use_cases = TagUseCases::new(&mut repo);

    use_cases.create_tag(user.id(), "Work".to_string(), None).unwrap();
    use_cases.create_tag(user.id(), "Personal".to_string(), Some("#00FF00".to_string())).unwrap();

    let tags = use_cases.list_tags(user.id()).unwrap();
    assert_eq!(tags.len(), 2);
    assert_eq!(tags[0].name, "Personal");
    assert_eq!(tags[1].name, "Work");
}

#[test]
fn test_tag_update() {
    let mut db = setup();
    let user = create_test_user(&mut db.users);
    let mut repo = InMemoryTagRepository::new();
    let mut use_cases = TagUseCases::new(&mut repo);

    let tag = use_cases.create_tag(user.id(), "Old Name".to_string(), Some("#000000".to_string())).unwrap();

    let updated = use_cases.update_tag(tag.id(), Some("New Name".to_string()), Some(Some("#FFFFFF".to_string()))).unwrap();

    assert_eq!(updated.name, "New Name");
    assert_eq!(updated.color, Some("#FFFFFF".to_string()));
}

#[test]
fn test_tag_delete_removes_associations() {
    let (mut db, user, account, category) = setup_with_account();
    let mut tag_repo = InMemoryTagRepository::new();
    let mut tag_uc = TagUseCases::new(&mut tag_repo);

    let tag = tag_uc.create_tag(user.id(), "ToDelete".to_string(), None).unwrap();
    let tx = {
        let mut tx_uc = TransactionUseCases::new(&mut db.transactions);
        tx_uc
            .create_transaction(account.id(), category.id(), 1000, TransactionType::Expense, "Test".to_string(), now())
            .unwrap()
    };

    tag_uc.add_tag_to_transaction(tx.id(), tag.id()).unwrap();

    let tags = tag_uc.get_transaction_tags(tx.id()).unwrap();
    assert_eq!(tags.len(), 1);

    tag_uc.delete_tag(tag.id()).unwrap();

    let tags_after = tag_uc.get_transaction_tags(tx.id()).unwrap();
    assert_eq!(tags_after.len(), 0);
}

#[test]
fn test_tag_transaction_association() {
    let (mut db, user, account, category) = setup_with_account();
    let mut tag_repo = InMemoryTagRepository::new();
    let mut tag_uc = TagUseCases::new(&mut tag_repo);

    let tag1 = tag_uc.create_tag(user.id(), "Food".to_string(), None).unwrap();
    let tag2 = tag_uc.create_tag(user.id(), "Restaurant".to_string(), None).unwrap();

    let (tx1, tx2) = {
        let mut tx_uc = TransactionUseCases::new(&mut db.transactions);
        let tx1 = tx_uc
            .create_transaction(account.id(), category.id(), 2000, TransactionType::Expense, "Lunch".to_string(), now())
            .unwrap();
        let tx2 = tx_uc
            .create_transaction(account.id(), category.id(), 3000, TransactionType::Expense, "Dinner".to_string(), now())
            .unwrap();
        (tx1, tx2)
    };

    tag_uc.add_tag_to_transaction(tx1.id(), tag1.id()).unwrap();
    tag_uc.add_tag_to_transaction(tx2.id(), tag1.id()).unwrap();
    tag_uc.add_tag_to_transaction(tx1.id(), tag2.id()).unwrap();

    let tags_tx1 = tag_uc.get_transaction_tags(tx1.id()).unwrap();
    assert_eq!(tags_tx1.len(), 2);

    let tags_tx2 = tag_uc.get_transaction_tags(tx2.id()).unwrap();
    assert_eq!(tags_tx2.len(), 1);

    let tx_ids = tag_uc.get_transactions_by_tag(tag1.id()).unwrap();
    assert_eq!(tx_ids.len(), 2);

    tag_uc.remove_tag_from_transaction(tx2.id(), tag1.id()).unwrap();
    let tx_ids_after = tag_uc.get_transactions_by_tag(tag1.id()).unwrap();
    assert_eq!(tx_ids_after.len(), 1);
}

#[test]
fn test_tag_add_duplicate_ignored() {
    let (mut db, user, account, category) = setup_with_account();
    let mut tag_repo = InMemoryTagRepository::new();
    let mut tag_uc = TagUseCases::new(&mut tag_repo);

    let tag = tag_uc.create_tag(user.id(), "Dup".to_string(), None).unwrap();
    let tx = {
        let mut tx_uc = TransactionUseCases::new(&mut db.transactions);
        tx_uc
            .create_transaction(account.id(), category.id(), 500, TransactionType::Expense, "Test".to_string(), now())
            .unwrap()
    };

    tag_uc.add_tag_to_transaction(tx.id(), tag.id()).unwrap();
    tag_uc.add_tag_to_transaction(tx.id(), tag.id()).unwrap();

    let tags = tag_uc.get_transaction_tags(tx.id()).unwrap();
    assert_eq!(tags.len(), 1);
}

#[test]
fn test_tag_empty_name_rejected() {
    let mut db = setup();
    let user = create_test_user(&mut db.users);
    let mut repo = InMemoryTagRepository::new();
    let mut use_cases = TagUseCases::new(&mut repo);

    let result = use_cases.create_tag(user.id(), "".to_string(), None);
    assert!(result.is_err());
}

#[test]
fn test_tag_invalid_color_rejected() {
    let mut db = setup();
    let user = create_test_user(&mut db.users);
    let mut repo = InMemoryTagRepository::new();
    let mut use_cases = TagUseCases::new(&mut repo);

    let result = use_cases.create_tag(user.id(), "Bad".to_string(), Some("red".to_string()));
    assert!(result.is_err());
}

#[test]
fn test_budget_progress_calculation() {
    let (mut db, _user, account, category) = setup_with_account();
    let mut budget_repo = InMemoryBudgetRepository::new();

    let now = now();
    let budget = {
        let mut budget_uc = BudgetUseCases::new(&mut budget_repo, &db.transactions);
        budget_uc
            .create_budget(account.id(), Some(category.id()), "Food Budget".to_string(), 100_00, "monthly", days_from_now(-1))
            .unwrap()
    };

    {
        let mut tx_uc = TransactionUseCases::new(&mut db.transactions);
        tx_uc
            .create_transaction(account.id(), category.id(), 30_00, TransactionType::Expense, "Groceries".to_string(), now)
            .unwrap();
        tx_uc
            .create_transaction(account.id(), category.id(), 20_00, TransactionType::Expense, "Restaurant".to_string(), now)
            .unwrap();
    }

    let budget_uc = BudgetUseCases::new(&mut budget_repo, &db.transactions);
    let progress = budget_uc.get_budget_progress(budget.base.id).unwrap();
    assert_eq!(progress.spent, 50_00);
    assert_eq!(progress.remaining, 50_00);
    let percentage = (progress.spent as f64 / progress.budget.amount as f64) * 100.0;
    assert!((percentage - 50.0).abs() < 0.01);
}

#[test]
fn test_monthly_trends() {
    let (mut db, _user, account, category) = setup_with_account();
    let now = now();
    {
        let mut tx_uc = TransactionUseCases::new(&mut db.transactions);
        tx_uc
            .create_transaction(account.id(), category.id(), 100_00, TransactionType::Expense, "Groceries".to_string(), now)
            .unwrap();
        tx_uc
            .create_transaction(account.id(), category.id(), 50_00, TransactionType::Income, "Refund".to_string(), now)
            .unwrap();
        tx_uc
            .create_transaction(account.id(), category.id(), 25_00, TransactionType::Expense, "Coffee".to_string(), now)
            .unwrap();
    }

    let stats = StatisticsUseCases::new(&db.transactions, &db.categories);
    let trends = stats.get_monthly_trends(account.id(), days_from_now(-30), days_from_now(1)).unwrap();

    assert!(!trends.is_empty());
    let trend = &trends[0];
    assert_eq!(trend.income, 50_00);
    assert_eq!(trend.expenses, 125_00);
    assert_eq!(trend.net, 50_00 - 125_00);
    assert_eq!(trend.transaction_count, 3);
}

#[test]
fn test_daily_spending() {
    let (mut db, _user, account, category) = setup_with_account();
    let now = now();
    {
        let mut tx_uc = TransactionUseCases::new(&mut db.transactions);
        tx_uc
            .create_transaction(account.id(), category.id(), 30_00, TransactionType::Expense, "Lunch".to_string(), now)
            .unwrap();
        tx_uc
            .create_transaction(account.id(), category.id(), 10_00, TransactionType::Expense, "Snack".to_string(), now)
            .unwrap();
        tx_uc
            .create_transaction(account.id(), category.id(), 200_00, TransactionType::Income, "Salary".to_string(), now)
            .unwrap();
    }

    let stats = StatisticsUseCases::new(&db.transactions, &db.categories);
    let spending = stats.get_daily_spending(account.id(), days_from_now(-1), days_from_now(1)).unwrap();

    assert_eq!(spending.len(), 1);
    assert_eq!(spending[0].amount, 40_00);
    assert_eq!(spending[0].transaction_count, 2);
}

#[test]
fn test_create_transfer_links_two_transactions() {
    let mut db = setup();
    let user = create_test_user(&mut db.users);
    let account_a = create_test_account(&mut db.accounts, user.id());
    let account_b = {
        let mut account_uc = AccountUseCases::new(&mut db.accounts);
        account_uc.create_account(user.id(), "Savings".to_string(), "USD".to_string()).unwrap()
    };
    let category = create_test_category(&mut db.categories, user.id());
    let mut tx_uc = TransactionUseCases::new(&mut db.transactions);

    let now = now();
    let (outgoing, incoming) = tx_uc
        .create_transfer(account_a.id(), account_b.id(), category.id(), 50_00, "To savings".to_string(), now)
        .unwrap();

    assert_eq!(outgoing.account_id, account_a.id());
    assert_eq!(outgoing.amount, 50_00);
    assert_eq!(outgoing.transaction_type, TransactionType::Transfer);
    assert_eq!(outgoing.linked_transaction_id, Some(incoming.base.id));

    assert_eq!(incoming.account_id, account_b.id());
    assert_eq!(incoming.amount, 50_00);
    assert_eq!(incoming.transaction_type, TransactionType::Income);
    assert_eq!(incoming.linked_transaction_id, Some(outgoing.base.id));
}

#[test]
fn test_get_linked_transaction() {
    let mut db = setup();
    let user = create_test_user(&mut db.users);
    let account_a = create_test_account(&mut db.accounts, user.id());
    let account_b = {
        let mut account_uc = AccountUseCases::new(&mut db.accounts);
        account_uc.create_account(user.id(), "Checking".to_string(), "USD".to_string()).unwrap()
    };
    let category = create_test_category(&mut db.categories, user.id());
    let mut tx_uc = TransactionUseCases::new(&mut db.transactions);

    let now = now();
    let (outgoing, incoming) = tx_uc
        .create_transfer(account_a.id(), account_b.id(), category.id(), 75_00, "Rent transfer".to_string(), now)
        .unwrap();

    let linked = tx_uc.get_linked_transaction(outgoing.base.id).unwrap();
    assert!(linked.is_some());
    assert_eq!(linked.unwrap().base.id, incoming.base.id);

    let linked2 = tx_uc.get_linked_transaction(incoming.base.id).unwrap();
    assert!(linked2.is_some());
    assert_eq!(linked2.unwrap().base.id, outgoing.base.id);
}

#[test]
fn test_transfer_same_account_fails() {
    let (mut db, _user, account, category) = setup_with_account();
    let mut tx_uc = TransactionUseCases::new(&mut db.transactions);

    let result = tx_uc.create_transfer(account.id(), account.id(), category.id(), 50_00, "Self transfer".to_string(), now());
    assert!(result.is_err());
}

#[test]
fn test_transfer_balances() {
    let mut db = setup();
    let user = create_test_user(&mut db.users);
    let (account_a, account_b) = {
        let mut account_uc = AccountUseCases::new(&mut db.accounts);
        let a = account_uc.create_account(user.id(), "Main".to_string(), "USD".to_string()).unwrap();
        let b = account_uc.create_account(user.id(), "Savings".to_string(), "USD".to_string()).unwrap();
        (a, b)
    };
    let category = create_test_category(&mut db.categories, user.id());
    {
        let mut tx_uc = TransactionUseCases::new(&mut db.transactions);
        tx_uc
            .create_transaction(account_a.id(), category.id(), 200_00, TransactionType::Income, "Salary".to_string(), now())
            .unwrap();
        tx_uc
            .create_transfer(account_a.id(), account_b.id(), category.id(), 100_00, "To savings".to_string(), now())
            .unwrap();
    }

    let balance_a = db.transactions.calculate_balance(account_a.id()).unwrap();
    assert_eq!(balance_a, 100_00);

    let balance_b = db.transactions.calculate_balance(account_b.id()).unwrap();
    assert_eq!(balance_b, 100_00);
}
