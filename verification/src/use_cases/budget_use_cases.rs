//! Managing budgets and measuring spending against them.
use vstd::prelude::*;
use crate::entities::budget::{
    Budget, BudgetPeriod, BudgetProgress, budget_amount_message, budget_name_message, period_end,
};
use crate::entities::common::BaseEntity;
use crate::errors::{DomainError, validation};
use crate::ids::EntityId;
use crate::queries::{relation, stable_sort};
use crate::records::{accepted, lookup, rows_retired, rows_revised};
use crate::repositories::budget_repository::{
    BudgetsOf, InMemoryBudgetRepository, NewestBudgetFirst, duplicate_budget_message,
};
use crate::repositories::transaction_repository::{
    InMemoryTransactionRepository, fits_i64, integer_overflow, integer_overflow_message,
};
use crate::repositories::transaction_statistics::spent_total;
use crate::text::{blank, unicode_lowercase};
use crate::time::Timestamp;

verus! {

/// Message of the error for an unknown budget period.
pub open spec fn invalid_period_message() -> Seq<char> {
    "Invalid budget period"@
}

/// Message of the error for a missing budget.
pub open spec fn budget_not_found_message() -> Seq<char> {
    "Budget not found"@
}

/// Expenses counted against budget `b` over the period ending at `end` (seconds since the
/// epoch): the live expenses of its account (of its category, when it has one) dated from
/// its start to `end`, both included.
pub open spec fn budget_spent(transactions: Seq<crate::entities::transaction::Transaction>, b: Budget, end: i64) -> int {
    spent_total(transactions, b.account_id, b.category_id, b.start_date, Timestamp::instant(end))
}

/// Whether the progress of budget `b` can be measured: its period has an end, and the
/// spending and what remains of the amount are within `i64`.
pub open spec fn progress_defined(transactions: Seq<crate::entities::transaction::Transaction>, b: Budget) -> bool {
    match period_end(b.start_date.unix(), b.period) {
        Some(end) => fits_i64(budget_spent(transactions, b, end)) && fits_i64(b.amount - budget_spent(transactions, b, end)),
        None => false,
    }
}

/// Message of the error for a budget whose period ends beyond the representable range.
pub open spec fn period_end_message() -> Seq<char> {
    "Budget period ends beyond the supported dates"@
}

/// Whether `e` is the error that measuring budget `b` fails with: its period ends beyond
/// the representable range, or a total is beyond `i64`.
pub open spec fn is_progress_error(
    e: DomainError,
    transactions: Seq<crate::entities::transaction::Transaction>,
    b: Budget,
) -> bool {
    match period_end(b.start_date.unix(), b.period) {
        None => e is Validation && e.message() == period_end_message(),
        Some(_) => e is Storage && e.message() == integer_overflow_message(),
    }
}

/// Whether `p` is the progress of budget `b` over its current period.
pub open spec fn is_progress(p: BudgetProgress, b: Budget, transactions: Seq<crate::entities::transaction::Transaction>) -> bool {
    let end = period_end(b.start_date.unix(), b.period)->Some_0;
    &&& p.budget == b
    &&& p.period_start == b.start_date
    &&& p.period_end.unix() == end
    &&& p.spent == budget_spent(transactions, b, end)
    &&& p.remaining == b.amount - p.spent
}

/// The live budgets of an account, most recently created first.
pub open spec fn budgets_of(budgets: Seq<Budget>, account_id: EntityId) -> Seq<Budget> {
    stable_sort(budgets.filter(accepted(BudgetsOf { account_id })), relation::<Budget, NewestBudgetFirst>())
}

/// Operations on budgets.
pub struct BudgetUseCases<'a> {
    pub budget_repo: &'a mut InMemoryBudgetRepository,
    pub transaction_repo: &'a InMemoryTransactionRepository,
}

impl<'a> BudgetUseCases<'a> {
    /// Operations over the budgets of `budget_repo`, measured against the transactions of
    /// `transaction_repo`.
    pub fn new(
        budget_repo: &'a mut InMemoryBudgetRepository,
        transaction_repo: &'a InMemoryTransactionRepository,
    ) -> (r: BudgetUseCases<'a>)
        ensures
            *r.budget_repo == *old(budget_repo),
            *final(r.budget_repo) == *final(budget_repo),
            r.transaction_repo == transaction_repo,
    {
        BudgetUseCases { budget_repo, transaction_repo }
    }

    /// Creates and stores a budget; the period is named by `period_str` (ignoring letter
    /// case), the amount must be positive and the name not blank.
    pub fn create_budget(
        &mut self,
        account_id: EntityId,
        category_id: Option<EntityId>,
        name: String,
        amount: i64,
        period_str: &str,
        start_date: Timestamp,
    ) -> (r: Result<Budget, DomainError>)
        requires
            old(self).budget_repo.wf(),
        ensures
            final(self).budget_repo.wf(),
            *final(final(self).budget_repo) == *final(old(self).budget_repo),
            final(self).transaction_repo == old(self).transaction_repo,
            BudgetPeriod::parse(unicode_lowercase(period_str@)) is None ==> (r matches Err(e) && e is Validation
                && e.message() == invalid_period_message()),
            BudgetPeriod::parse(unicode_lowercase(period_str@)) is Some && amount <= 0 ==> (r matches Err(e)
                && e is Validation && e.message() == budget_amount_message()),
            BudgetPeriod::parse(unicode_lowercase(period_str@)) is Some && amount > 0 && blank(name@) ==> (r matches Err(e)
                && e is Validation && e.message() == budget_name_message()),
            BudgetPeriod::parse(unicode_lowercase(period_str@)) is Some && amount > 0 && !blank(name@) ==> (r is Ok
                || (r matches Err(e) && e is Storage && e.message() == duplicate_budget_message())),
            BudgetPeriod::parse(unicode_lowercase(period_str@)) is Some && amount > 0 && !blank(name@)
                && old(self).budget_repo@.len() == 0 ==> r is Ok,
            r matches Ok(b) ==> {
                &&& Some(b.period) == BudgetPeriod::parse(unicode_lowercase(period_str@))
                &&& b.account_id == account_id && b.category_id == category_id && b.name == name
                &&& b.amount == amount && b.start_date == start_date && b.base.deleted_at is None
                &&& final(self).budget_repo@ == old(self).budget_repo@.push(b)
            },
            r is Err ==> final(self).budget_repo@ == old(self).budget_repo@,
    {
        let period = match BudgetPeriod::from_str(period_str) {
            Some(p) => p,
            None => {
                return Err(validation("Invalid budget period"));
            },
        };
        let budget = match Budget::new(account_id, category_id, name, amount, period, start_date) {
            Ok(b) => b,
            Err(m) => {
                return Err(DomainError::Validation(m));
            },
        };
        self.budget_repo.save(&budget)?;
        Ok(budget)
    }

    /// The stored budget with identifier `id`, deleted or not; fails when there is none.
    pub fn get_budget(&self, id: EntityId) -> (r: Result<Budget, DomainError>)
        requires
            self.budget_repo.wf(),
        ensures
            r is Ok <==> lookup(old(self.budget_repo)@, id) is Some,
            r matches Ok(b) ==> lookup(old(self.budget_repo)@, id) == Some(b),
            r matches Err(e) ==> e is NotFound && e.message() == budget_not_found_message(),
    {
        match self.budget_repo.find_by_id(id)? {
            Some(b) => Ok(b),
            None => Err(DomainError::NotFound("Budget not found".to_string())),
        }
    }

    /// The live budgets of an account, most recently created first.
    pub fn list_budgets(&self, account_id: EntityId) -> (r: Result<Vec<Budget>, DomainError>)
        ensures
            r matches Ok(v) && v@ == budgets_of(old(self.budget_repo)@, account_id),
    {
        self.budget_repo.find_by_account_id(account_id)
    }

    /// Applies an update to a stored budget (every field but its identifier and creation time).
    pub fn update_budget(&mut self, budget: &Budget) -> (r: Result<(), DomainError>)
        requires
            old(self).budget_repo.wf(),
        ensures
            final(self).budget_repo.wf(),
            *final(final(self).budget_repo) == *final(old(self).budget_repo),
            final(self).transaction_repo == old(self).transaction_repo,
            r is Ok,
            final(self).budget_repo@ == rows_revised(old(self).budget_repo@, *budget),
    {
        self.budget_repo.update(budget)
    }

    /// Changes the name, amount and/or period (named by text, ignoring letter case) of a
    /// stored budget, each when given; the budget is then updated now and stored. Returns
    /// the budget as stored.
    pub fn edit_budget(&mut self, id: EntityId, name: Option<String>, amount: Option<i64>, period_str: Option<&str>)
        -> (r: Result<Budget, DomainError>)
        requires
            old(self).budget_repo.wf(),
        ensures
            final(self).budget_repo.wf(),
            *final(final(self).budget_repo) == *final(old(self).budget_repo),
            final(self).transaction_repo == old(self).transaction_repo,
            lookup(old(self).budget_repo@, id) is None ==> (r matches Err(e) && e is NotFound
                && e.message() == budget_not_found_message()),
            lookup(old(self).budget_repo@, id) is Some && (period_str matches Some(p)
                && BudgetPeriod::parse(unicode_lowercase(p@)) is None) ==> (r matches Err(e) && e is Validation
                && e.message() == invalid_period_message()),
            lookup(old(self).budget_repo@, id) is Some && !(period_str matches Some(p)
                && BudgetPeriod::parse(unicode_lowercase(p@)) is None) ==> r is Ok,
            r is Err ==> final(self).budget_repo@ == old(self).budget_repo@,
            r matches Ok(b) ==> ({
                let stored = lookup(old(self).budget_repo@, id)->Some_0;
                &&& b == (Budget {
                    name: match name { Some(n) => n, None => stored.name },
                    amount: match amount { Some(a) => a, None => stored.amount },
                    period: match period_str {
                        Some(p) => BudgetPeriod::parse(unicode_lowercase(p@))->Some_0,
                        None => stored.period,
                    },
                    base: BaseEntity { updated_at: b.base.updated_at, ..stored.base },
                    ..stored
                })
                &&& final(self).budget_repo@ == rows_revised(old(self).budget_repo@, b)
            }),
    {
        let mut budget = self.get_budget(id)?;
        if let Some(n) = name {
            budget.name = n;
        }
        if let Some(a) = amount {
            budget.amount = a;
        }
        if let Some(p) = period_str {
            match BudgetPeriod::from_str(p) {
                Some(period) => {
                    budget.period = period;
                },
                None => {
                    return Err(validation("Invalid budget period"));
                },
            }
        }
        budget.base.touch();
        self.budget_repo.update(&budget)?;
        Ok(budget)
    }

    /// Soft-deletes the budget with identifier `id` now; nothing changes when there is none.
    pub fn delete_budget(&mut self, id: EntityId) -> (r: Result<(), DomainError>)
        requires
            old(self).budget_repo.wf(),
        ensures
            final(self).budget_repo.wf(),
            *final(final(self).budget_repo) == *final(old(self).budget_repo),
            final(self).transaction_repo == old(self).transaction_repo,
            r is Ok,
            exists|now: Timestamp| final(self).budget_repo@ == rows_retired(old(self).budget_repo@, id, now),
    {
        self.budget_repo.delete(id)
    }

    /// How much of the budget with identifier `budget_id` is spent over its current period
    /// (from its start to the end of its period, both included), and what remains of its
    /// amount. Fails when there is no such budget, when its period ends beyond the
    /// representable range, or when a total is beyond `i64`.
    pub fn get_budget_progress(&self, budget_id: EntityId) -> (r: Result<BudgetProgress, DomainError>)
        requires
            self.budget_repo.wf(),
        ensures
            lookup(old(self.budget_repo)@, budget_id) is None ==> (r matches Err(e) && e is NotFound
                && e.message() == budget_not_found_message()),
            lookup(old(self.budget_repo)@, budget_id) matches Some(b) ==> {
                &&& progress_defined(self.transaction_repo@, b) ==> (r matches Ok(p)
                    && is_progress(p, b, self.transaction_repo@))
                &&& !progress_defined(self.transaction_repo@, b) ==> (r matches Err(e)
                    && is_progress_error(e, self.transaction_repo@, b))
            },
    {
        let budget = self.get_budget(budget_id)?;
        self.progress_of(budget)
    }

    /// Spending against budget `budget` over its current period.
    fn progress_of(&self, budget: Budget) -> (r: Result<BudgetProgress, DomainError>)
        ensures
            progress_defined(self.transaction_repo@, budget) ==> (r matches Ok(p)
                && is_progress(p, budget, self.transaction_repo@)),
            !progress_defined(self.transaction_repo@, budget) ==> (r matches Err(e)
                && is_progress_error(e, self.transaction_repo@, budget)),
    {
        let period_start = budget.start_date;
        let period_end = match budget.period_end_date() {
            Some(e) => e,
            None => {
                return Err(validation("Budget period ends beyond the supported dates"));
            },
        };
        proof {
            Timestamp::lemma_instant(period_end, period_end.unix());
        }
        let spent = self.transaction_repo.get_budget_spent(budget.account_id, budget.category_id, period_start, period_end)?;
        let remaining = match budget.amount.checked_sub(spent) {
            Some(v) => v,
            None => {
                return Err(integer_overflow());
            },
        };
        Ok(BudgetProgress { budget, spent, remaining, period_start, period_end })
    }

    /// The progress of each live budget of an account, most recently created first.
    pub fn get_all_budgets_progress(&self, account_id: EntityId) -> (r: Result<Vec<BudgetProgress>, DomainError>)
        ensures
            ({
                let bs = budgets_of(old(self.budget_repo)@, account_id);
                &&& r is Ok <==> forall|i: int| 0 <= i < bs.len() ==> #[trigger] progress_defined(self.transaction_repo@, bs[i])
                &&& r matches Ok(v) ==> v@.len() == bs.len()
                    && forall|i: int| 0 <= i < v@.len() ==> #[trigger] is_progress(v@[i], bs[i], self.transaction_repo@)
                &&& r matches Err(e) ==> exists|i: int| 0 <= i < bs.len() && !progress_defined(self.transaction_repo@, bs[i])
                    && #[trigger] is_progress_error(e, self.transaction_repo@, bs[i])
            }),
    {
        let budgets = self.list_budgets(account_id)?;
        let mut out: Vec<BudgetProgress> = Vec::new();
        let mut i: usize = 0;
        while i < budgets.len()
            invariant
                budgets@ == budgets_of(self.budget_repo@, account_id),
                forall|j: int| 0 <= j < i ==> progress_defined(self.transaction_repo@, #[trigger] budgets@[j]),
                i <= budgets@.len(),
                out@.len() == i,
                forall|j: int| 0 <= j < i ==> #[trigger] is_progress(out@[j], budgets@[j], self.transaction_repo@),
            decreases budgets@.len() - i,
        {
            let b = budgets[i].duplicate();
            let p = match self.progress_of(b) {
                Ok(p) => p,
                Err(e) => {
                    assert(!progress_defined(self.transaction_repo@, budgets@[i as int]));
                    assert(is_progress_error(e, self.transaction_repo@, budgets@[i as int]));
                    return Err(e);
                },
            };
            out.push(p);
            i += 1;
        }
        Ok(out)
    }
}

} // verus!
