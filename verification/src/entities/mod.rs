//! Domain entities.

pub mod common;
pub mod user;
pub mod account;
pub mod category;
pub mod tag;
pub mod transaction;
pub mod budget;
pub mod recurring_transaction;
pub mod exchange_rate;
pub mod pagination;
pub mod search;

pub use common::{BaseEntity, SyncStatus, TransactionType};
pub use user::User;
pub use account::Account;
pub use category::Category;
pub use tag::{Tag, TransactionTag};
pub use transaction::Transaction;
pub use budget::{Budget, BudgetPeriod, BudgetProgress};
pub use recurring_transaction::{RecurrenceFrequency, RecurringTransaction};
