//! Use cases: the operations the application offers, over the repositories.

pub mod statistics_use_cases;
pub mod account_use_cases;
pub mod category_use_cases;
pub mod transaction_use_cases;
pub mod budget_use_cases;
pub mod recurring_transaction_use_cases;
pub mod tag_use_cases;
pub mod search_use_cases;
pub mod currency_use_cases;

pub use account_use_cases::AccountUseCases;
pub use budget_use_cases::BudgetUseCases;
pub use category_use_cases::CategoryUseCases;
pub use currency_use_cases::CurrencyUseCases;
pub use recurring_transaction_use_cases::RecurringTransactionUseCases;
pub use search_use_cases::SearchUseCases;
pub use statistics_use_cases::StatisticsUseCases;
pub use tag_use_cases::TagUseCases;
pub use transaction_use_cases::TransactionUseCases;
