//! Budgets: spending limits over a period.
use vstd::prelude::*;
use crate::entities::common::BaseEntity;
use crate::ids::EntityId;
use crate::text::{ascii_lower_word, blank, is_blank, lowercase, text_eq, unicode_lowercase};
use crate::time::{
    SECONDS_PER_DAY, Timestamp, days_after, month_after, quarter_after, representable, same_instant, within_days,
    year_after,
};

verus! {

/// Time period of a budget.
#[derive(Debug, Clone, Copy, PartialEq, Eq, Structural)]
pub enum BudgetPeriod {
    Weekly,
    Monthly,
    Quarterly,
    Yearly,
}

impl BudgetPeriod {
    /// The lower-case name of the period.
    pub open spec fn text(self) -> Seq<char> {
        match self {
            BudgetPeriod::Weekly => "weekly"@,
            BudgetPeriod::Monthly => "monthly"@,
            BudgetPeriod::Quarterly => "quarterly"@,
            BudgetPeriod::Yearly => "yearly"@,
        }
    }

    /// The period named by the lower-case text `s`, if any.
    pub open spec fn parse(s: Seq<char>) -> Option<BudgetPeriod> {
        if s == "weekly"@ {
            Some(BudgetPeriod::Weekly)
        } else if s == "monthly"@ {
            Some(BudgetPeriod::Monthly)
        } else if s == "quarterly"@ {
            Some(BudgetPeriod::Quarterly)
        } else if s == "yearly"@ {
            Some(BudgetPeriod::Yearly)
        } else {
            None
        }
    }

    /// Reads a period from its name, ignoring letter case.
    pub fn from_str(s: &str) -> (r: Option<BudgetPeriod>)
        ensures
            r == BudgetPeriod::parse(unicode_lowercase(s@)),
            ascii_lower_word(s@) ==> r == BudgetPeriod::parse(s@),
    {
        let lower = lowercase(s);
        let l = lower.as_str();
        if text_eq(l, "weekly") {
            Some(BudgetPeriod::Weekly)
        } else if text_eq(l, "monthly") {
            Some(BudgetPeriod::Monthly)
        } else if text_eq(l, "quarterly") {
            Some(BudgetPeriod::Quarterly)
        } else if text_eq(l, "yearly") {
            Some(BudgetPeriod::Yearly)
        } else {
            None
        }
    }

    /// The lower-case name of the period.
    pub fn to_string(&self) -> (r: String)
        ensures
            r@ == self.text(),
    {
        match self {
            BudgetPeriod::Weekly => "weekly".to_string(),
            BudgetPeriod::Monthly => "monthly".to_string(),
            BudgetPeriod::Quarterly => "quarterly".to_string(),
            BudgetPeriod::Yearly => "yearly".to_string(),
        }
    }
}

/// Reading back the name of a period gives the period; the name is lower-case.
pub proof fn lemma_budget_period_round_trip(p: BudgetPeriod)
    ensures
        BudgetPeriod::parse(p.text()) == Some(p),
        ascii_lower_word(p.text()),
{
    reveal_strlit("weekly");
    reveal_strlit("monthly");
    reveal_strlit("quarterly");
    reveal_strlit("yearly");
    assert("monthly"@[0] != "weekly"@[0]);
    assert("quarterly"@[0] != "weekly"@[0]);
    assert("quarterly"@[0] != "monthly"@[0]);
    assert("yearly"@[0] != "weekly"@[0]);
    assert("yearly"@[0] != "monthly"@[0]);
    assert("yearly"@[0] != "quarterly"@[0]);
}

/// Message of the error for a non-positive budget amount.
pub open spec fn budget_amount_message() -> Seq<char> {
    "Budget amount must be positive"@
}

/// Message of the error for a blank budget name.
pub open spec fn budget_name_message() -> Seq<char> {
    "Budget name cannot be empty"@
}

/// A budget: a spending limit (in cents) for an account, optionally one category, per period.
#[derive(Debug, Clone)]
pub struct Budget {
    pub base: BaseEntity,
    pub account_id: EntityId,
    pub category_id: Option<EntityId>,
    pub name: String,
    pub amount: i64,
    pub period: BudgetPeriod,
    pub start_date: Timestamp,
}

/// Most days a budget period lasts: a week, or 31 days per calendar month.
pub open spec fn period_days_bound(period: BudgetPeriod) -> int {
    match period {
        BudgetPeriod::Weekly => 7,
        BudgetPeriod::Monthly => 31,
        BudgetPeriod::Quarterly => 93,
        BudgetPeriod::Yearly => 372,
    }
}

/// Fewest days a budget period lasts: a week, or 28 days per calendar month.
pub open spec fn period_days_floor(period: BudgetPeriod) -> int {
    match period {
        BudgetPeriod::Weekly => 7,
        BudgetPeriod::Monthly => 28,
        BudgetPeriod::Quarterly => 84,
        BudgetPeriod::Yearly => 336,
    }
}

/// End of the budget period starting at `start` (seconds since the epoch), when it exists.
pub open spec fn period_end(start: i64, period: BudgetPeriod) -> Option<i64> {
    match period {
        BudgetPeriod::Weekly => days_after(start, 7),
        BudgetPeriod::Monthly => month_after(start),
        BudgetPeriod::Quarterly => quarter_after(start),
        BudgetPeriod::Yearly => year_after(start),
    }
}

impl Budget {
    /// A new budget; the amount must be positive and the name not blank.
    pub fn new(
        account_id: EntityId,
        category_id: Option<EntityId>,
        name: String,
        amount: i64,
        period: BudgetPeriod,
        start_date: Timestamp,
    ) -> (r: Result<Budget, String>)
        ensures
            r is Ok <==> amount > 0 && !blank(name@),
            amount <= 0 ==> (r matches Err(m) && m@ == budget_amount_message()),
            amount > 0 && blank(name@) ==> (r matches Err(m) && m@ == budget_name_message()),
            r matches Ok(b) ==> {
                &&& b.account_id == account_id
                &&& b.category_id == category_id
                &&& b.name == name
                &&& b.amount == amount
                &&& b.period == period
                &&& b.start_date == start_date
                &&& b.base.deleted_at is None
            },
    {
        if amount <= 0 {
            return Err("Budget amount must be positive".to_string());
        }
        if is_blank(name.as_str()) {
            return Err("Budget name cannot be empty".to_string());
        }
        Ok(Budget {
            base: BaseEntity::new(),
            account_id,
            category_id,
            name,
            amount,
            period,
            start_date,
        })
    }

    /// The end of the current budget period: a week, or one, three or twelve calendar
    /// months after the start (on the last day of a shorter month); `None` only when that
    /// instant is beyond the representable range.
    pub fn period_end_date(&self) -> (r: Option<Timestamp>)
        ensures
            same_instant(r, period_end(self.start_date.unix(), self.period)),
            representable(self.start_date.unix() + period_days_bound(self.period) * SECONDS_PER_DAY) ==> r is Some,
            r matches Some(t) ==> within_days(self.start_date.unix(), t.unix(), period_days_bound(self.period)),
            r matches Some(t) ==> self.start_date.unix() + period_days_floor(self.period) * SECONDS_PER_DAY <= t.unix(),
    {
        match self.period {
            BudgetPeriod::Weekly => self.start_date.plus_days(7),
            BudgetPeriod::Monthly => self.start_date.next_month(),
            BudgetPeriod::Quarterly => self.start_date.next_quarter(),
            BudgetPeriod::Yearly => self.start_date.next_year(),
        }
    }

    /// A copy of the budget.
    pub fn duplicate(&self) -> (r: Budget)
        ensures
            r == *self,
    {
        Budget {
            base: self.base,
            account_id: self.account_id,
            category_id: self.category_id,
            name: self.name.clone(),
            amount: self.amount,
            period: self.period,
            start_date: self.start_date,
        }
    }
}

/// Progress of spending against a budget over its current period.
#[derive(Debug, Clone)]
pub struct BudgetProgress {
    pub budget: Budget,
    pub spent: i64,
    pub remaining: i64,
    pub period_start: Timestamp,
    pub period_end: Timestamp,
}

} // verus!
