//! In-memory repositories: the stored records of each kind and the queries over them.

pub mod transaction_repository;
pub mod category_repository;
pub mod account_repository;
pub mod user_repository;
pub mod budget_repository;
pub mod recurring_transaction_repository;
pub mod tag_repository;
pub mod exchange_rate_repository;
pub mod transaction_statistics;
pub mod category_spending;
pub mod columns;

pub use transaction_repository::InMemoryTransactionRepository;
pub use category_repository::InMemoryCategoryRepository;
pub use account_repository::InMemoryAccountRepository;
pub use user_repository::InMemoryUserRepository;
pub use budget_repository::InMemoryBudgetRepository;
pub use recurring_transaction_repository::InMemoryRecurringTransactionRepository;
pub use tag_repository::InMemoryTagRepository;
pub use exchange_rate_repository::InMemoryExchangeRateRepository;
