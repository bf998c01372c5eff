//! Spending statistics.
use vstd::prelude::*;
use crate::errors::{DomainError, validation};
use crate::ids::EntityId;
use crate::repositories::category_repository::InMemoryCategoryRepository;
use crate::repositories::category_spending::{ByCategory, category_name, groups_ranked, spending_buckets};
use crate::repositories::transaction_repository::{InMemoryTransactionRepository, groups_of, integer_overflow_message};
use crate::repositories::transaction_statistics::{
    ByDay, ByMonth, daily_bucket, day_start, group_totals_fit, trend_buckets, unlinked_total,
};
use crate::repositories::transaction_repository::fits_i64;
use crate::time::{Timestamp, utc_date_text};
use crate::entities::common::TransactionType;

verus! {

/// Spending in one category.
#[derive(Debug, Clone)]
pub struct CategorySpending {
    pub category_id: EntityId,
    pub category_name: String,
    pub total_amount: i64,
    pub transaction_count: usize,
}

/// Income and expenses of one calendar month.
#[derive(Debug, Clone, Copy, PartialEq, Eq, Structural)]
pub struct MonthlyTrend {
    pub year: i32,
    pub month: u32,
    pub income: i64,
    pub expenses: i64,
    pub net: i64,
    pub transaction_count: usize,
}

/// Expenses of one day.
#[derive(Debug, Clone)]
pub struct DailySpending {
    /// The day, as `YYYY-MM-DD`.
    pub date: String,
    pub amount: i64,
    pub transaction_count: usize,
}

/// Income against expenses over a period.
#[derive(Debug, Clone, Copy, PartialEq, Eq, Structural)]
pub struct IncomeSummary {
    pub income: i64,
    pub expenses: i64,
    pub transfers: i64,
    pub net: i64,
}

/// Message of the error for a period that ends before it starts.
pub open spec fn period_order_message() -> Seq<char> {
    "Start date must be before end date"@
}

/// Statistics over the transactions of an account.
pub struct StatisticsUseCases<'a> {
    pub transaction_repo: &'a InMemoryTransactionRepository,
    pub category_repo: &'a InMemoryCategoryRepository,
}

impl<'a> StatisticsUseCases<'a> {
    /// Statistics over the transactions of `transaction_repo`, naming the categories of
    /// `category_repo`.
    pub fn new(
        transaction_repo: &'a InMemoryTransactionRepository,
        category_repo: &'a InMemoryCategoryRepository,
    ) -> (r: StatisticsUseCases<'a>)
        ensures
            r.transaction_repo == transaction_repo,
            r.category_repo == category_repo,
    {
        StatisticsUseCases { transaction_repo, category_repo }
    }

    /// Spending per live category of the live expenses of an account within `[from, to]`,
    /// largest total first; fails when `from` is after `to` or a total is beyond `i64`.
    pub fn get_spending_by_category(&self, account_id: EntityId, from: Timestamp, to: Timestamp)
        -> (r: Result<Vec<CategorySpending>, DomainError>)
        requires
            self.category_repo.wf(),
        ensures
            from.unix() > to.unix() ==> (r matches Err(e) && e is Validation && e.message() == period_order_message()),
            from.unix() <= to.unix() ==> ({
                let g = ByCategory { account_id, from, to, categories: self.category_repo };
                &&& r is Ok <==> group_totals_fit(self.transaction_repo@, g)
                &&& r matches Ok(v) ==> groups_ranked(spending_buckets(v@), self.transaction_repo@, g)
                    && forall|i: int| 0 <= i < v@.len()
                        ==> #[trigger] v@[i].category_name@ == category_name(self.category_repo@, v@[i].category_id)
                &&& r matches Err(e) ==> e is Storage && e.message() == integer_overflow_message()
            }),
    {
        if from.is_after(&to) {
            return Err(validation("Start date must be before end date"));
        }
        self.transaction_repo.get_spending_by_category(self.category_repo, account_id, from, to)
    }

    /// Income, expenses and outgoing transfers of an account within `[from, to]` (live
    /// transactions not paired with another one) and the net amount; fails when `from` is
    /// after `to` or a total or the net amount is beyond `i64`.
    pub fn get_income_vs_expenses(&self, account_id: EntityId, from: Timestamp, to: Timestamp)
        -> (r: Result<IncomeSummary, DomainError>)
        ensures
            from.unix() > to.unix() ==> (r matches Err(e) && e is Validation && e.message() == period_order_message()),
            from.unix() <= to.unix() ==> ({
                let rows = self.transaction_repo@;
                let income = unlinked_total(rows, account_id, from, to, TransactionType::Income);
                let expenses = unlinked_total(rows, account_id, from, to, TransactionType::Expense);
                let transfers = unlinked_total(rows, account_id, from, to, TransactionType::Transfer);
                &&& r is Ok <==> fits_i64(income) && fits_i64(expenses) && fits_i64(transfers)
                    && fits_i64(income - expenses - transfers)
                &&& r matches Ok(s) ==> s.income == income && s.expenses == expenses
                    && s.transfers == transfers && s.net == income - expenses - transfers
                &&& r matches Err(e) ==> e is Storage && e.message() == integer_overflow_message()
            }),
    {
        if from.is_after(&to) {
            return Err(validation("Start date must be before end date"));
        }
        self.transaction_repo.get_income_vs_expenses(account_id, from, to)
    }

    /// Income and expenses per calendar month of an account within `[from, to]`, earliest
    /// month first: one entry for each month in which a counted transaction falls (a month
    /// without any has no entry). Fails when `from` is after `to` or a month's totals are
    /// beyond `i64`.
    pub fn get_monthly_trends(&self, account_id: EntityId, from: Timestamp, to: Timestamp)
        -> (r: Result<Vec<MonthlyTrend>, DomainError>)
        ensures
            from.unix() > to.unix() ==> (r matches Err(e) && e is Validation && e.message() == period_order_message()),
            from.unix() <= to.unix() ==> ({
                let g = ByMonth { account_id, from, to };
                &&& r is Ok <==> group_totals_fit(self.transaction_repo@, g)
                &&& r matches Ok(v) ==> groups_of(trend_buckets(v@), self.transaction_repo@, g)
                    && forall|i: int| 0 <= i < v@.len() ==> #[trigger] v@[i].net == v@[i].income - v@[i].expenses
                &&& r matches Err(e) ==> e is Storage && e.message() == integer_overflow_message()
            }),
    {
        if from.is_after(&to) {
            return Err(validation("Start date must be before end date"));
        }
        self.transaction_repo.get_monthly_trends(account_id, from, to)
    }

    /// Expenses per UTC day of an account within `[from, to]`, earliest day first; fails
    /// when `from` is after `to` or a day's total is beyond `i64`.
    pub fn get_daily_spending(&self, account_id: EntityId, from: Timestamp, to: Timestamp)
        -> (r: Result<Vec<DailySpending>, DomainError>)
        ensures
            from.unix() > to.unix() ==> (r matches Err(e) && e is Validation && e.message() == period_order_message()),
            from.unix() <= to.unix() ==> ({
                let g = ByDay { account_id, from, to };
                &&& r is Ok <==> group_totals_fit(self.transaction_repo@, g)
                &&& r matches Ok(v) ==> exists|keys: Seq<u128>| #![trigger keys.len()] {
                    &&& keys.len() == v@.len()
                    &&& groups_of(keys.map(|i: int, k: u128| daily_bucket(v@[i], k)), self.transaction_repo@, g)
                    &&& forall|i: int| 0 <= i < v@.len() ==> #[trigger] v@[i].date@ == utc_date_text(day_start(keys[i]) as i64)
                }
                &&& r matches Err(e) ==> e is Storage && e.message() == integer_overflow_message()
            }),
    {
        if from.is_after(&to) {
            return Err(validation("Start date must be before end date"));
        }
        self.transaction_repo.get_daily_spending(account_id, from, to)
    }
}

} // verus!
