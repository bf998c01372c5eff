//! Recurring transaction templates.
use vstd::prelude::*;
use crate::entities::common::{BaseEntity, TransactionType};
use crate::ids::EntityId;
use crate::text::{ascii_lower_word, lowercase, text_eq, unicode_lowercase};
use crate::time::{
    SECONDS_PER_DAY, Timestamp, days_after, month_after, quarter_after, representable, same_instant, within_days,
    year_after,
};

verus! {

/// How often a recurring transaction occurs.
#[derive(Debug, Clone, Copy, PartialEq, Eq, Structural)]
pub enum RecurrenceFrequency {
    Daily,
    Weekly,
    BiWeekly,
    Monthly,
    Quarterly,
    Yearly,
}

impl RecurrenceFrequency {
    /// The lower-case name of the frequency.
    pub open spec fn text(self) -> Seq<char> {
        match self {
            RecurrenceFrequency::Daily => "daily"@,
            RecurrenceFrequency::Weekly => "weekly"@,
            RecurrenceFrequency::BiWeekly => "biweekly"@,
            RecurrenceFrequency::Monthly => "monthly"@,
            RecurrenceFrequency::Quarterly => "quarterly"@,
            RecurrenceFrequency::Yearly => "yearly"@,
        }
    }

    /// The frequency named by the lower-case text `s`, if any.
    pub open spec fn parse(s: Seq<char>) -> Option<RecurrenceFrequency> {
        if s == "daily"@ {
            Some(RecurrenceFrequency::Daily)
        } else if s == "weekly"@ {
            Some(RecurrenceFrequency::Weekly)
        } else if s == "biweekly"@ {
            Some(RecurrenceFrequency::BiWeekly)
        } else if s == "monthly"@ {
            Some(RecurrenceFrequency::Monthly)
        } else if s == "quarterly"@ {
            Some(RecurrenceFrequency::Quarterly)
        } else if s == "yearly"@ {
            Some(RecurrenceFrequency::Yearly)
        } else {
            None
        }
    }

    /// Reads a frequency from its name, ignoring letter case.
    pub fn from_str(s: &str) -> (r: Option<RecurrenceFrequency>)
        ensures
            r == RecurrenceFrequency::parse(unicode_lowercase(s@)),
            ascii_lower_word(s@) ==> r == RecurrenceFrequency::parse(s@),
    {
        let lower = lowercase(s);
        let l = lower.as_str();
        if text_eq(l, "daily") {
            Some(RecurrenceFrequency::Daily)
        } else if text_eq(l, "weekly") {
            Some(RecurrenceFrequency::Weekly)
        } else if text_eq(l, "biweekly") {
            Some(RecurrenceFrequency::BiWeekly)
        } else if text_eq(l, "monthly") {
            Some(RecurrenceFrequency::Monthly)
        } else if text_eq(l, "quarterly") {
            Some(RecurrenceFrequency::Quarterly)
        } else if text_eq(l, "yearly") {
            Some(RecurrenceFrequency::Yearly)
        } else {
            None
        }
    }

    /// The lower-case name of the frequency.
    pub fn to_string(&self) -> (r: String)
        ensures
            r@ == self.text(),
    {
        match self {
            RecurrenceFrequency::Daily => "daily".to_string(),
            RecurrenceFrequency::Weekly => "weekly".to_string(),
            RecurrenceFrequency::BiWeekly => "biweekly".to_string(),
            RecurrenceFrequency::Monthly => "monthly".to_string(),
            RecurrenceFrequency::Quarterly => "quarterly".to_string(),
            RecurrenceFrequency::Yearly => "yearly".to_string(),
        }
    }
}

/// Reading back the name of a frequency gives the frequency; the name is lower-case.
pub proof fn lemma_recurrence_frequency_round_trip(f: RecurrenceFrequency)
    ensures
        RecurrenceFrequency::parse(f.text()) == Some(f),
        ascii_lower_word(f.text()),
{
    reveal_strlit("daily");
    reveal_strlit("weekly");
    reveal_strlit("biweekly");
    reveal_strlit("monthly");
    reveal_strlit("quarterly");
    reveal_strlit("yearly");
    assert("weekly"@[0] != "daily"@[0]);
    assert("biweekly"@[0] != "daily"@[0]);
    assert("biweekly"@[0] != "weekly"@[0]);
    assert("monthly"@[0] != "daily"@[0]);
    assert("monthly"@[0] != "weekly"@[0]);
    assert("monthly"@[0] != "biweekly"@[0]);
    assert("quarterly"@[0] != "daily"@[0]);
    assert("quarterly"@[0] != "weekly"@[0]);
    assert("quarterly"@[0] != "biweekly"@[0]);
    assert("quarterly"@[0] != "monthly"@[0]);
    assert("yearly"@[0] != "daily"@[0]);
    assert("yearly"@[0] != "weekly"@[0]);
    assert("yearly"@[0] != "biweekly"@[0]);
    assert("yearly"@[0] != "monthly"@[0]);
    assert("yearly"@[0] != "quarterly"@[0]);
}

/// Most days between an occurrence and the next: one, seven or fourteen days, or 31 days
/// per calendar month.
pub open spec fn occurrence_days_bound(frequency: RecurrenceFrequency) -> int {
    match frequency {
        RecurrenceFrequency::Daily => 1,
        RecurrenceFrequency::Weekly => 7,
        RecurrenceFrequency::BiWeekly => 14,
        RecurrenceFrequency::Monthly => 31,
        RecurrenceFrequency::Quarterly => 93,
        RecurrenceFrequency::Yearly => 372,
    }
}

/// Fewest days between two occurrences: one, seven or fourteen days, or 28 days per
/// calendar month.
pub open spec fn occurrence_days_floor(frequency: RecurrenceFrequency) -> int {
    match frequency {
        RecurrenceFrequency::Daily => 1,
        RecurrenceFrequency::Weekly => 7,
        RecurrenceFrequency::BiWeekly => 14,
        RecurrenceFrequency::Monthly => 28,
        RecurrenceFrequency::Quarterly => 84,
        RecurrenceFrequency::Yearly => 336,
    }
}

/// The occurrence following one at `secs` (seconds since the epoch), when it exists.
pub open spec fn occurrence_after(secs: i64, frequency: RecurrenceFrequency) -> Option<i64> {
    match frequency {
        RecurrenceFrequency::Daily => days_after(secs, 1),
        RecurrenceFrequency::Weekly => days_after(secs, 7),
        RecurrenceFrequency::BiWeekly => days_after(secs, 14),
        RecurrenceFrequency::Monthly => month_after(secs),
        RecurrenceFrequency::Quarterly => quarter_after(secs),
        RecurrenceFrequency::Yearly => year_after(secs),
    }
}

/// Message of the error for a non-positive recurring amount.
pub open spec fn recurring_amount_message() -> Seq<char> {
    "Amount must be positive"@
}

/// Message of the error for an end date before the start date.
pub open spec fn recurring_dates_message() -> Seq<char> {
    "End date must be after start date"@
}

/// A template that spawns a transaction at each occurrence.
#[derive(Debug, Clone)]
pub struct RecurringTransaction {
    pub base: BaseEntity,
    pub account_id: EntityId,
    pub category_id: EntityId,
    pub amount: i64,
    pub transaction_type: TransactionType,
    pub description: String,
    pub frequency: RecurrenceFrequency,
    pub start_date: Timestamp,
    pub end_date: Option<Timestamp>,
    pub next_occurrence: Timestamp,
    pub is_active: bool,
}

impl RecurringTransaction {
    /// Whether the template no longer produces transactions at instant `now`:
    /// it was deactivated, or its end date has passed.
    pub open spec fn expired_at(self, now: Timestamp) -> bool {
        !self.is_active || (self.end_date matches Some(end) && now.unix() > end.unix())
    }

    /// A new active template whose first occurrence is its start date; the amount must be
    /// positive and the end date, when given, not before the start.
    pub fn new(
        account_id: EntityId,
        category_id: EntityId,
        amount: i64,
        transaction_type: TransactionType,
        description: String,
        frequency: RecurrenceFrequency,
        start_date: Timestamp,
        end_date: Option<Timestamp>,
    ) -> (r: Result<RecurringTransaction, String>)
        ensures
            r is Ok <==> amount > 0 && !(end_date matches Some(e) && e.unix() < start_date.unix()),
            amount <= 0 ==> (r matches Err(m) && m@ == recurring_amount_message()),
            amount > 0 && (end_date matches Some(e) && e.unix() < start_date.unix())
                ==> (r matches Err(m) && m@ == recurring_dates_message()),
            r matches Ok(t) ==> {
                &&& t.account_id == account_id
                &&& t.category_id == category_id
                &&& t.amount == amount
                &&& t.transaction_type == transaction_type
                &&& t.description == description
                &&& t.frequency == frequency
                &&& t.start_date == start_date
                &&& t.end_date == end_date
                &&& t.next_occurrence == start_date
                &&& t.is_active
                &&& t.base.deleted_at is None
            },
    {
        if amount <= 0 {
            return Err("Amount must be positive".to_string());
        }
        if let Some(end) = end_date {
            if end.is_before(&start_date) {
                return Err("End date must be after start date".to_string());
            }
        }
        Ok(RecurringTransaction {
            base: BaseEntity::new(),
            account_id,
            category_id,
            amount,
            transaction_type,
            description,
            frequency,
            start_date,
            end_date,
            next_occurrence: start_date,
            is_active: true,
        })
    }

    /// Whether the template no longer produces transactions at instant `now`.
    pub fn is_expired_at(&self, now: &Timestamp) -> (r: bool)
        ensures
            r == self.expired_at(*now),
    {
        if !self.is_active {
            return true;
        }
        match self.end_date {
            Some(end) => now.is_after(&end),
            None => false,
        }
    }

    /// Whether the template no longer produces transactions, judged at the current time.
    pub fn is_expired(&self) -> (r: bool)
        ensures
            !self.is_active ==> r,
            self.is_active && self.end_date is None ==> !r,
            exists|now: Timestamp| r == self.expired_at(now),
    {
        let now = Timestamp::now();
        self.is_expired_at(&now)
    }

    /// The occurrence after the current one: one day, one or two weeks, or one, three
    /// or twelve calendar months later (on the last day of a shorter month); `None` only
    /// when that instant is beyond the representable range.
    pub fn calculate_next_occurrence(&self) -> (r: Option<Timestamp>)
        ensures
            same_instant(r, occurrence_after(self.next_occurrence.unix(), self.frequency)),
            representable(self.next_occurrence.unix() + occurrence_days_bound(self.frequency) * SECONDS_PER_DAY)
                ==> r is Some,
            r matches Some(t) ==> within_days(self.next_occurrence.unix(), t.unix(), occurrence_days_bound(self.frequency)),
            r matches Some(t) ==> self.next_occurrence.unix() + occurrence_days_floor(self.frequency) * SECONDS_PER_DAY
                <= t.unix(),
    {
        match self.frequency {
            RecurrenceFrequency::Daily => self.next_occurrence.plus_days(1),
            RecurrenceFrequency::Weekly => self.next_occurrence.plus_days(7),
            RecurrenceFrequency::BiWeekly => self.next_occurrence.plus_days(14),
            RecurrenceFrequency::Monthly => self.next_occurrence.next_month(),
            RecurrenceFrequency::Quarterly => self.next_occurrence.next_quarter(),
            RecurrenceFrequency::Yearly => self.next_occurrence.next_year(),
        }
    }

    /// A copy of the template.
    pub fn duplicate(&self) -> (r: RecurringTransaction)
        ensures
            r == *self,
    {
        RecurringTransaction {
            base: self.base,
            account_id: self.account_id,
            category_id: self.category_id,
            amount: self.amount,
            transaction_type: self.transaction_type,
            description: self.description.clone(),
            frequency: self.frequency,
            start_date: self.start_date,
            end_date: self.end_date,
            next_occurrence: self.next_occurrence,
            is_active: self.is_active,
        }
    }
}

} // verus!
