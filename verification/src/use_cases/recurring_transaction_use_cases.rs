//! Managing recurring transaction templates and turning due occurrences into transactions.
use vstd::prelude::*;
use crate::entities::common::{BaseEntity, TransactionType};
use crate::entities::pagination::{PageRequest, PaginatedResult};
use crate::entities::recurring_transaction::{
    RecurrenceFrequency, RecurringTransaction, occurrence_after, recurring_amount_message, recurring_dates_message,
};
use crate::entities::transaction::{Transaction, non_positive_amount_message};
use crate::errors::{DomainError, RequestError, validation};
use crate::ids::{EntityId, uuid_parse};
use crate::repositories::columns::{id_column, optional_time_column, optional_time_value, time_column};
use crate::queries::{lemma_filter_members, lemma_filter_twice, page_of};
use crate::records::{Record, Retirable, accepted, lemma_filter_unique_keys, lookup, rows_retired, rows_revised, unique_keys};
use crate::repositories::recurring_transaction_repository::{
    ActiveTemplates, InMemoryRecurringTransactionRepository, duplicate_template_message, templates_of,
};
use crate::repositories::transaction_repository::{InMemoryTransactionRepository, duplicate_transaction_message};
use crate::text::unicode_lowercase;
use crate::time::{Timestamp, rfc3339_instant, same_instant};
use crate::use_cases::transaction_use_cases::fresh_transaction;

verus! {

/// Message of the error for an unknown frequency.
pub open spec fn invalid_frequency_message() -> Seq<char> {
    "Invalid frequency"@
}

/// Message of the error for a missing template.
pub open spec fn template_not_found_message() -> Seq<char> {
    "Recurring transaction not found"@
}

/// Whether every template due at `now` has a following occurrence.
fn due_templates_advance(repo: &InMemoryRecurringTransactionRepository, now: Timestamp) -> (b: bool)
    requires
        repo.wf(),
    ensures
        b == due_advance(repo@, now),
{
    let ghost rows = repo@;
    let ghost p1 = accepted(ActiveTemplates { due_by: Some(now) });
    let ghost p2 = |t: RecurringTransaction| !t.expired_at(now);
    let due = match repo.find_due(now) {
        Ok(v) => v,
        Err(_) => return true,
    };
    proof {
        lemma_filter_twice(rows, p1, p2);
        assert((|x: RecurringTransaction| p1(x) && p2(x)) =~= (|t: RecurringTransaction| due_now(t, now)));
    }
    let mut i: usize = 0;
    while i < due.len()
        invariant
            i <= due@.len(),
            rows == repo@,
            p2 == (|t: RecurringTransaction| !t.expired_at(now)),
            due@.filter(p2) == to_process(rows, now),
            forall|k: int| 0 <= k < i && !(#[trigger] due@[k]).expired_at(now)
                ==> occurrence_after(due@[k].next_occurrence.unix(), due@[k].frequency) is Some,
        decreases due@.len() - i,
    {
        let template = &due[i];
        if !template.is_expired_at(&now) && template.calculate_next_occurrence().is_none() {
            proof {
                let d = due@[i as int];
                assert(occurrence_after(d.next_occurrence.unix(), d.frequency) is None);
                due@.lemma_filter_contains(p2, i as int);
                let m = choose|m: int| 0 <= m < due@.filter(p2).len() && due@.filter(p2)[m] == d;
                assert(to_process(rows, now)[m] == d);
                assert(!due_advance(rows, now));
            }
            return false;
        }
        i += 1;
    }
    proof {
        lemma_filter_members(due@, p2);
        assert forall|k: int| 0 <= k < to_process(rows, now).len() implies occurrence_after(
            (#[trigger] to_process(rows, now)[k]).next_occurrence.unix(),
            to_process(rows, now)[k].frequency,
        ) is Some by {
            let d = to_process(rows, now)[k];
            assert(due@.filter(p2).contains(d));
            let j = choose|j: int| 0 <= j < due@.len() && due@[j] == d;
            assert(!due@[j].expired_at(now));
        }
    }
    true
}

/// Whether template `t` produces a transaction when due templates are processed at `now`:
/// it is live and active, its next occurrence has come, and its end date has not passed.
pub open spec fn due_now(t: RecurringTransaction, now: Timestamp) -> bool {
    &&& t.is_active
    &&& !t.retired()
    &&& t.next_occurrence.unix() <= now.unix()
    &&& !t.expired_at(now)
}

/// The templates that produce a transaction when processed at `now`, in storage order.
pub open spec fn to_process(rows: Seq<RecurringTransaction>, now: Timestamp) -> Seq<RecurringTransaction> {
    rows.filter(|t: RecurringTransaction| due_now(t, now))
}

/// The template moved on to its following occurrence.
pub open spec fn advanced(t: RecurringTransaction) -> RecurringTransaction {
    RecurringTransaction {
        next_occurrence: Timestamp::instant(occurrence_after(t.next_occurrence.unix(), t.frequency)->Some_0),
        ..t
    }
}

/// The templates after processing at `now`: each one that produced a transaction moves on
/// to its following occurrence.
pub open spec fn advance_due(rows: Seq<RecurringTransaction>, now: Timestamp) -> Seq<RecurringTransaction> {
    rows.map_values(|r: RecurringTransaction| if due_now(r, now) { advanced(r) } else { r })
}

/// Whether every template due at `now` has a following occurrence within the supported dates.
pub open spec fn due_advance(rows: Seq<RecurringTransaction>, now: Timestamp) -> bool {
    forall|i: int| 0 <= i < to_process(rows, now).len() ==> occurrence_after(
        (#[trigger] to_process(rows, now)[i]).next_occurrence.unix(),
        to_process(rows, now)[i].frequency,
    ) is Some
}

/// Message of the error for a due template whose next occurrence cannot be represented.
pub open spec fn no_next_occurrence_message() -> Seq<char> {
    "A due template's next occurrence is beyond the supported dates"@
}

/// The templates after moving on those among `done`.
pub open spec fn advance_done(rows: Seq<RecurringTransaction>, done: Seq<RecurringTransaction>) -> Seq<RecurringTransaction> {
    rows.map_values(|r: RecurringTransaction| if done.contains(r) { advanced(r) } else { r })
}

/// Whether `t` is the transaction template `r` produces for its next occurrence.
pub open spec fn produced_by(t: Transaction, r: RecurringTransaction) -> bool {
    &&& fresh_transaction(t, r.account_id, r.category_id, r.amount, r.transaction_type, r.description@, r.next_occurrence)
    &&& t.linked_transaction_id is None
}

/// The first argument of a template request given as text that does not read, as the
/// message that says so: the account and category identifiers (UUID text), the
/// transaction type (`expense`, `income` or `transfer`), the start date and the optional
/// end date (RFC 3339 text).
pub open spec fn template_text_problem(
    account_id: &str,
    category_id: &str,
    transaction_type: &str,
    start_date: &str,
    end_date: Option<&str>,
) -> Option<Seq<char>> {
    if uuid_parse(account_id@) is None {
        Some("Invalid account_id UUID"@)
    } else if uuid_parse(category_id@) is None {
        Some("Invalid category_id UUID"@)
    } else if TransactionType::parse(transaction_type@) is None {
        Some("Invalid transaction_type"@)
    } else if rfc3339_instant(start_date@) is None {
        Some("Invalid start_date (expected RFC3339)"@)
    } else if optional_time_value(end_date) is None {
        Some("Invalid end_date (expected RFC3339)"@)
    } else {
        None
    }
}

/// Operations on recurring transaction templates.
pub struct RecurringTransactionUseCases<'a> {
    pub recurring_repo: &'a mut InMemoryRecurringTransactionRepository,
    pub transaction_repo: &'a mut InMemoryTransactionRepository,
}

impl<'a> RecurringTransactionUseCases<'a> {
    /// Operations over the templates of `recurring_repo`, recording transactions in
    /// `transaction_repo`.
    pub fn new(
        recurring_repo: &'a mut InMemoryRecurringTransactionRepository,
        transaction_repo: &'a mut InMemoryTransactionRepository,
    ) -> (r: RecurringTransactionUseCases<'a>)
        ensures
            *r.recurring_repo == *old(recurring_repo),
            *final(r.recurring_repo) == *final(recurring_repo),
            *r.transaction_repo == *old(transaction_repo),
            *final(r.transaction_repo) == *final(transaction_repo),
    {
        RecurringTransactionUseCases { recurring_repo, transaction_repo }
    }

    /// Creates and stores an active template whose first occurrence is its start date; the
    /// frequency is named by `frequency_str` (ignoring letter case), the amount must be
    /// positive and the end date, when given, not before the start.
    pub fn create_recurring_transaction(
        &mut self,
        account_id: EntityId,
        category_id: EntityId,
        amount: i64,
        transaction_type: TransactionType,
        description: String,
        frequency_str: &str,
        start_date: Timestamp,
        end_date: Option<Timestamp>,
    ) -> (r: Result<RecurringTransaction, DomainError>)
        requires
            old(self).recurring_repo.wf(),
        ensures
            final(self).recurring_repo.wf(),
            *final(final(self).recurring_repo) == *final(old(self).recurring_repo),
            *final(final(self).transaction_repo) == *final(old(self).transaction_repo),
            *final(self).transaction_repo == *old(self).transaction_repo,
            RecurrenceFrequency::parse(unicode_lowercase(frequency_str@)) is None ==> (r matches Err(e)
                && e is Validation && e.message() == invalid_frequency_message()),
            RecurrenceFrequency::parse(unicode_lowercase(frequency_str@)) is Some && amount <= 0 ==> (r matches Err(e)
                && e is Validation && e.message() == recurring_amount_message()),
            RecurrenceFrequency::parse(unicode_lowercase(frequency_str@)) is Some && amount > 0
                && (end_date matches Some(e) && e.unix() < start_date.unix()) ==> (r matches Err(e)
                && e is Validation && e.message() == recurring_dates_message()),
            RecurrenceFrequency::parse(unicode_lowercase(frequency_str@)) is Some && amount > 0
                && !(end_date matches Some(e) && e.unix() < start_date.unix()) ==> (r is Ok || (r matches Err(e)
                && e is Storage && e.message() == duplicate_template_message())),
            RecurrenceFrequency::parse(unicode_lowercase(frequency_str@)) is Some && amount > 0
                && !(end_date matches Some(e) && e.unix() < start_date.unix())
                && old(self).recurring_repo@.len() == 0 ==> r is Ok,
            r matches Ok(t) ==> {
                &&& Some(t.frequency) == RecurrenceFrequency::parse(unicode_lowercase(frequency_str@))
                &&& t.account_id == account_id && t.category_id == category_id && t.amount == amount
                &&& t.transaction_type == transaction_type && t.description == description
                &&& t.start_date == start_date && t.end_date == end_date && t.next_occurrence == start_date
                &&& t.is_active && t.base.deleted_at is None
                &&& final(self).recurring_repo@ == old(self).recurring_repo@.push(t)
            },
            r is Err ==> final(self).recurring_repo@ == old(self).recurring_repo@,
    {
        let frequency = match RecurrenceFrequency::from_str(frequency_str) {
            Some(f) => f,
            None => {
                return Err(validation("Invalid frequency"));
            },
        };
        let recurring = match RecurringTransaction::new(
            account_id,
            category_id,
            amount,
            transaction_type,
            description,
            frequency,
            start_date,
            end_date,
        ) {
            Ok(t) => t,
            Err(m) => {
                return Err(DomainError::Validation(m));
            },
        };
        self.recurring_repo.save(&recurring)?;
        Ok(recurring)
    }

    /// Creates a template from arguments given as text (identifiers as UUID text, the type
    /// by name, dates as RFC 3339 text), as `create_recurring_transaction` does with them
    /// read; fails with the first argument that does not read, changing nothing.
    pub fn create_recurring_transaction_from_text(
        &mut self,
        account_id: &str,
        category_id: &str,
        amount: i64,
        transaction_type: &str,
        description: String,
        frequency_str: &str,
        start_date: &str,
        end_date: Option<&str>,
    ) -> (r: Result<RecurringTransaction, RequestError>)
        requires
            old(self).recurring_repo.wf(),
        ensures
            final(self).recurring_repo.wf(),
            *final(final(self).recurring_repo) == *final(old(self).recurring_repo),
            *final(final(self).transaction_repo) == *final(old(self).transaction_repo),
            *final(self).transaction_repo == *old(self).transaction_repo,
            template_text_problem(account_id, category_id, transaction_type, start_date, end_date) matches Some(m)
                ==> (r matches Err(RequestError::InvalidInput(msg)) && msg@ == m
                && final(self).recurring_repo@ == old(self).recurring_repo@),
            template_text_problem(account_id, category_id, transaction_type, start_date, end_date) is None ==> ({
                let a = uuid_parse(account_id@)->Some_0;
                let c = uuid_parse(category_id@)->Some_0;
                let k = TransactionType::parse(transaction_type@)->Some_0;
                let s = rfc3339_instant(start_date@)->Some_0;
                let e = optional_time_value(end_date)->Some_0;
                let f = RecurrenceFrequency::parse(unicode_lowercase(frequency_str@));
                let dates_ok = !(e matches Some(x) && x.unix() < s.unix());
                &&& f is None ==> (r matches Err(RequestError::Domain(d)) && d is Validation
                    && d.message() == invalid_frequency_message())
                &&& f is Some && amount <= 0 ==> (r matches Err(RequestError::Domain(d)) && d is Validation
                    && d.message() == recurring_amount_message())
                &&& f is Some && amount > 0 && !dates_ok ==> (r matches Err(RequestError::Domain(d))
                    && d is Validation && d.message() == recurring_dates_message())
                &&& f is Some && amount > 0 && dates_ok ==> (r is Ok || (r matches Err(RequestError::Domain(d))
                    && d is Storage && d.message() == duplicate_template_message()))
                &&& f is Some && amount > 0 && dates_ok && old(self).recurring_repo@.len() == 0 ==> r is Ok
                &&& r matches Ok(t) ==> {
                    &&& Some(t.frequency) == f
                    &&& t.account_id == a && t.category_id == c && t.amount == amount
                    &&& t.transaction_type == k && t.description == description
                    &&& t.start_date == s && t.end_date == e && t.next_occurrence == s
                    &&& t.is_active && t.base.deleted_at is None
                    &&& final(self).recurring_repo@ == old(self).recurring_repo@.push(t)
                }
                &&& r is Err ==> final(self).recurring_repo@ == old(self).recurring_repo@
            }),
    {
        let account = match id_column(account_id) {
            Ok(v) => v,
            Err(_) => {
                return Err(RequestError::InvalidInput("Invalid account_id UUID".to_string()));
            },
        };
        let category = match id_column(category_id) {
            Ok(v) => v,
            Err(_) => {
                return Err(RequestError::InvalidInput("Invalid category_id UUID".to_string()));
            },
        };
        let kind = match TransactionType::from_str(transaction_type) {
            Some(k) => k,
            None => {
                return Err(RequestError::InvalidInput("Invalid transaction_type".to_string()));
            },
        };
        let start = match time_column(start_date) {
            Ok(v) => v,
            Err(_) => {
                return Err(RequestError::InvalidInput("Invalid start_date (expected RFC3339)".to_string()));
            },
        };
        let end = match optional_time_column(end_date) {
            Ok(v) => v,
            Err(_) => {
                return Err(RequestError::InvalidInput("Invalid end_date (expected RFC3339)".to_string()));
            },
        };
        match self.create_recurring_transaction(account, category, amount, kind, description, frequency_str, start, end) {
            Ok(t) => Ok(t),
            Err(d) => Err(RequestError::Domain(d)),
        }
    }

    /// The stored template with identifier `id`, deleted or not; fails when there is none.
    pub fn get_recurring_transaction(&self, id: EntityId) -> (r: Result<RecurringTransaction, DomainError>)
        requires
            self.recurring_repo.wf(),
        ensures
            r is Ok <==> lookup(old(self.recurring_repo)@, id) is Some,
            r matches Ok(t) ==> lookup(old(self.recurring_repo)@, id) == Some(t),
            r matches Err(e) ==> e is NotFound && e.message() == template_not_found_message(),
    {
        match self.recurring_repo.find_by_id(id)? {
            Some(t) => Ok(t),
            None => Err(DomainError::NotFound("Recurring transaction not found".to_string())),
        }
    }

    /// The live templates of an account, most recently created first.
    pub fn list_recurring_transactions(&self, account_id: EntityId) -> (r: Result<Vec<RecurringTransaction>, DomainError>)
        ensures
            r matches Ok(v) && v@ == templates_of(old(self.recurring_repo)@, account_id),
    {
        self.recurring_repo.find_by_account_id(account_id)
    }

    /// One page of the live templates of an account, most recently created first.
    pub fn list_recurring_transactions_paginated(&self, account_id: EntityId, page: &PageRequest)
        -> (r: Result<PaginatedResult<RecurringTransaction>, DomainError>)
        ensures
            r matches Ok(p) && {
                let all = templates_of(old(self.recurring_repo)@, account_id);
                &&& p.items@ == page_of(all, page.offset as int, page.limit as int)
                &&& p.total_count == all.len()
                &&& p.has_more == (page.offset + p.items@.len() < all.len())
            },
    {
        self.recurring_repo.find_by_account_id_paginated(account_id, page)
    }

    /// Applies an update to a stored template (every field but its identifier and creation time).
    pub fn update_recurring_transaction(&mut self, recurring: &RecurringTransaction) -> (r: Result<(), DomainError>)
        requires
            old(self).recurring_repo.wf(),
        ensures
            final(self).recurring_repo.wf(),
            *final(final(self).recurring_repo) == *final(old(self).recurring_repo),
            *final(final(self).transaction_repo) == *final(old(self).transaction_repo),
            *final(self).transaction_repo == *old(self).transaction_repo,
            r is Ok,
            final(self).recurring_repo@ == rows_revised(old(self).recurring_repo@, *recurring),
    {
        self.recurring_repo.update(recurring)
    }

    /// Changes the amount, description, active flag and/or category of a stored template,
    /// each when given; the template is then updated now and stored. Returns the template as
    /// stored.
    pub fn edit_recurring_transaction(
        &mut self,
        id: EntityId,
        amount: Option<i64>,
        description: Option<String>,
        is_active: Option<bool>,
        category_id: Option<EntityId>,
    ) -> (r: Result<RecurringTransaction, DomainError>)
        requires
            old(self).recurring_repo.wf(),
        ensures
            final(self).recurring_repo.wf(),
            *final(final(self).recurring_repo) == *final(old(self).recurring_repo),
            *final(final(self).transaction_repo) == *final(old(self).transaction_repo),
            *final(self).transaction_repo == *old(self).transaction_repo,
            r is Ok <==> lookup(old(self).recurring_repo@, id) is Some,
            r matches Err(e) ==> e is NotFound && e.message() == template_not_found_message()
                && final(self).recurring_repo@ == old(self).recurring_repo@,
            r matches Ok(t) ==> ({
                let stored = lookup(old(self).recurring_repo@, id)->Some_0;
                &&& t == (RecurringTransaction {
                    amount: match amount { Some(a) => a, None => stored.amount },
                    description: match description { Some(d) => d, None => stored.description },
                    is_active: match is_active { Some(b) => b, None => stored.is_active },
                    category_id: match category_id { Some(c) => c, None => stored.category_id },
                    base: BaseEntity { updated_at: t.base.updated_at, ..stored.base },
                    ..stored
                })
                &&& final(self).recurring_repo@ == rows_revised(old(self).recurring_repo@, t)
            }),
    {
        let mut recurring = self.get_recurring_transaction(id)?;
        if let Some(a) = amount {
            recurring.amount = a;
        }
        if let Some(d) = description {
            recurring.description = d;
        }
        if let Some(b) = is_active {
            recurring.is_active = b;
        }
        if let Some(c) = category_id {
            recurring.category_id = c;
        }
        recurring.base.touch();
        self.recurring_repo.update(&recurring)?;
        Ok(recurring)
    }

    /// Soft-deletes the template with identifier `id` now; nothing changes when there is none.
    pub fn delete_recurring_transaction(&mut self, id: EntityId) -> (r: Result<(), DomainError>)
        requires
            old(self).recurring_repo.wf(),
        ensures
            final(self).recurring_repo.wf(),
            *final(final(self).recurring_repo) == *final(old(self).recurring_repo),
            *final(final(self).transaction_repo) == *final(old(self).transaction_repo),
            *final(self).transaction_repo == *old(self).transaction_repo,
            r is Ok,
            exists|now: Timestamp| final(self).recurring_repo@ == rows_retired(old(self).recurring_repo@, id, now),
    {
        self.recurring_repo.delete(id)
    }
}

impl<'a> RecurringTransactionUseCases<'a> {
    /// Processes the due templates at instant `now`, in storage order: each live, active
    /// template whose next occurrence has come and whose end date has not passed produces a
    /// transaction for that occurrence, which is stored, and moves on to its following
    /// occurrence. Returns the identifiers of the transactions created, in order. Stops at
    /// the first template whose amount is not positive, or whose transaction cannot be stored.
    pub fn process_due_at(&mut self, now: Timestamp) -> (r: Result<Vec<EntityId>, DomainError>)
        requires
            old(self).recurring_repo.wf(),
            old(self).transaction_repo.wf(),
            forall|i: int| 0 <= i < to_process(old(self).recurring_repo@, now).len()
                ==> occurrence_after(
                    (#[trigger] to_process(old(self).recurring_repo@, now)[i]).next_occurrence.unix(),
                    to_process(old(self).recurring_repo@, now)[i].frequency,
                ) is Some,
        ensures
            final(self).recurring_repo.wf(),
            final(self).transaction_repo.wf(),
            *final(final(self).recurring_repo) == *final(old(self).recurring_repo),
            *final(final(self).transaction_repo) == *final(old(self).transaction_repo),
            r matches Ok(ids) ==> ({
                let due = to_process(old(self).recurring_repo@, now);
                let before = old(self).transaction_repo@;
                let after = final(self).transaction_repo@;
                &&& ids@.len() == due.len()
                &&& after.len() == before.len() + due.len()
                &&& after.take(before.len() as int) == before
                &&& forall|k: int| 0 <= k < due.len() ==> #[trigger] produced_by(after[before.len() + k], due[k])
                    && ids@[k] == after[before.len() + k].base.id
                &&& final(self).recurring_repo@ == advance_due(old(self).recurring_repo@, now)
            }),
            r matches Err(e) ==> (e is InvalidAmount && e.message() == non_positive_amount_message())
                || (e is Storage && e.message() == duplicate_transaction_message()),
            (forall|k: int| 0 <= k < to_process(old(self).recurring_repo@, now).len()
                ==> (#[trigger] to_process(old(self).recurring_repo@, now)[k]).amount > 0) ==> (r is Ok || (r matches Err(e)
                && e is Storage && e.message() == duplicate_transaction_message())),
            r matches Err(e) && e is Storage ==> final(self).transaction_repo@.len() > 0,
    {
        let ghost rows = self.recurring_repo@;
        let ghost p1 = accepted(ActiveTemplates { due_by: Some(now) });
        let ghost p2 = |t: RecurringTransaction| !t.expired_at(now);
        let due = self.recurring_repo.find_due(now)?;
        proof {
            lemma_filter_twice(rows, p1, p2);
            assert((|x: RecurringTransaction| p1(x) && p2(x)) =~= (|t: RecurringTransaction| due_now(t, now)));
            lemma_filter_unique_keys(rows, p1);
            lemma_filter_members(rows, p1);
        }
        proof {
            if forall|k: int| 0 <= k < to_process(rows, now).len() ==> (#[trigger] to_process(rows, now)[k]).amount > 0 {
                assert forall|k: int| 0 <= k < due@.len() && !due@[k].expired_at(now) implies #[trigger] due@[k].amount > 0 by {
                    due@.lemma_filter_contains(p2, k);
                    let m = choose|m: int| 0 <= m < due@.filter(p2).len() && due@.filter(p2)[m] == due@[k];
                    assert(to_process(rows, now)[m].amount > 0);
                }
            }
        }
        let mut ids: Vec<EntityId> = Vec::new();
        let ghost mut made: Seq<Transaction> = Seq::empty();
        let mut i: usize = 0;
        while i < due.len()
            invariant
                rows == old(self).recurring_repo@,
                p2 == (|t: RecurringTransaction| !t.expired_at(now)),
                due@ == rows.filter(p1),
                due@.filter(p2) == to_process(rows, now),
                unique_keys(rows),
                unique_keys(due@),
                forall|k: int| 0 <= k < due@.len() ==> rows.contains(#[trigger] due@[k]),
                forall|k: int| 0 <= k < to_process(rows, now).len() ==> occurrence_after(
                    (#[trigger] to_process(rows, now)[k]).next_occurrence.unix(),
                    to_process(rows, now)[k].frequency,
                ) is Some,
                i <= due@.len(),
                self.recurring_repo.wf(),
                self.transaction_repo.wf(),
                *final(self.recurring_repo) == *final(old(self).recurring_repo),
                *final(self.transaction_repo) == *final(old(self).transaction_repo),
                self.recurring_repo@ == advance_done(rows, due@.take(i as int).filter(p2)),
                made.len() == due@.take(i as int).filter(p2).len(),
                ids@.len() == made.len(),
                self.transaction_repo@ == old(self).transaction_repo@ + made,
                forall|k: int| 0 <= k < made.len() ==> #[trigger] produced_by(made[k], due@.take(i as int).filter(p2)[k])
                    && ids@[k] == made[k].base.id,
                (forall|k: int| 0 <= k < to_process(rows, now).len() ==> (#[trigger] to_process(rows, now)[k]).amount > 0)
                    ==> forall|k: int| 0 <= k < due@.len() && !due@[k].expired_at(now) ==> #[trigger] due@[k].amount > 0,
            decreases due@.len() - i,
        {
            let ghost done = due@.take(i as int).filter(p2);
            proof {
                crate::queries::lemma_prefix_step(due@, i as int, |x: RecurringTransaction| 0int, p2);
            }
            let template = &due[i];
            if template.is_expired_at(&now) {
                proof {
                    assert(due@.take(i + 1).filter(p2) == done);
                }
            } else {
                let ghost d = due@[i as int];
                proof {
                    assert(due@.take(i + 1).filter(p2) == done.push(d));
                    lemma_filter_members(due@.take(i as int), p2);
                    assert(due@.filter(p2).contains(d)) by {
                        due@.lemma_filter_contains(p2, i as int);
                    }
                    let m = choose|m: int| 0 <= m < to_process(rows, now).len() && to_process(rows, now)[m] == d;
                    assert(occurrence_after(d.next_occurrence.unix(), d.frequency) is Some);
                }
                let transaction = Transaction::new(
                    template.account_id,
                    template.category_id,
                    template.amount,
                    template.transaction_type,
                    template.description.clone(),
                    template.next_occurrence,
                )?;
                match self.transaction_repo.save(&transaction) {
                    Ok(()) => {},
                    Err(e) => {
                        proof {
                            let k = choose|k: int| 0 <= k < self.transaction_repo@.len()
                                && #[trigger] self.transaction_repo@[k].key() == transaction.key();
                        }
                        return Err(e);
                    },
                }
                ids.push(transaction.base.id);
                proof {
                    made = made.push(transaction);
                }
                let next = match template.calculate_next_occurrence() {
                    Some(n) => n,
                    None => {
                        assert(false);
                        return Err(validation("Invalid frequency"));
                    },
                };
                let mut moved = template.duplicate();
                moved.next_occurrence = next;
                proof {
                    Timestamp::lemma_instant(next, next.unix());
                    assert(moved == advanced(d));
                }
                let ghost current = self.recurring_repo@;
                self.recurring_repo.update(&moved)?;
                proof {
                    let done2 = done.push(d);
                    assert forall|j: int| 0 <= j < rows.len() implies #[trigger] self.recurring_repo@[j]
                        == (if done2.contains(rows[j]) { advanced(rows[j]) } else { rows[j] }) by {
                        let r = rows[j];
                        let m = choose|m: int| 0 <= m < rows.len() && rows[m] == d;
                        if r.key() == d.key() {
                            assert(j == m);
                            assert(r == d);
                            assert forall|a: int| 0 <= a < done.len() implies #[trigger] done[a] != d by {
                                assert(due@.take(i as int).contains(done[a]));
                                let b = choose|b: int| 0 <= b < due@.take(i as int).len() && due@.take(i as int)[b] == done[a];
                                assert(due@[b] == done[a]);
                                assert(due@[b].key() != due@[i as int].key());
                            }
                            assert(!done.contains(r));
                            assert(current[j] == r);
                            assert(done2[done.len() as int] == d);
                        } else {
                            assert(r != d);
                            if done.contains(r) {
                                let a = choose|a: int| 0 <= a < done.len() && done[a] == r;
                                assert(done2[a] == r);
                            }
                            if done2.contains(r) {
                                let a = choose|a: int| 0 <= a < done2.len() && done2[a] == r;
                                assert(a < done.len());
                                assert(done[a] == r);
                            }
                            assert(current[j].key() == r.key());
                        }
                    }
                    assert(self.recurring_repo@ =~= advance_done(rows, done2));
                    assert forall|k: int| 0 <= k < made.len() implies #[trigger] produced_by(made[k], done2[k])
                        && ids@[k] == made[k].base.id by {
                        if k < made.len() - 1 {
                            assert(made[k] == made.drop_last()[k]);
                        }
                    }
                }
            }
            i += 1;
        }
        proof {
            assert(due@.take(due@.len() as int) =~= due@);
            let done = due@.filter(p2);
            assert forall|j: int| 0 <= j < rows.len() implies (done.contains(rows[j]) <==> due_now(rows[j], now)) by {
                lemma_filter_members(rows, |t: RecurringTransaction| due_now(t, now));
                if due_now(rows[j], now) {
                    rows.lemma_filter_contains(|t: RecurringTransaction| due_now(t, now), j);
                }
            }
            assert(advance_done(rows, done) =~= advance_due(rows, now));
            let before = old(self).transaction_repo@;
            assert(self.transaction_repo@.take(before.len() as int) =~= before);
            assert(done == to_process(rows, now));
            assert(made.len() == done.len());
            assert forall|k: int| 0 <= k < done.len() implies #[trigger] produced_by(self.transaction_repo@[before.len() + k], done[k])
                && ids@[k] == self.transaction_repo@[before.len() + k].base.id by {
                assert(self.transaction_repo@[before.len() + k] == made[k]);
                assert(produced_by(made[k], due@.take(due@.len() as int).filter(p2)[k]));
            }
        }
        Ok(ids)
    }

    /// Processes the due templates at the current time (see `process_due_at`). Where a
    /// template due at that time has no following occurrence within the supported dates,
    /// nothing is processed and a validation error says so.
    pub fn process_due_recurring_transactions(&mut self) -> (r: Result<Vec<EntityId>, DomainError>)
        requires
            old(self).recurring_repo.wf(),
            old(self).transaction_repo.wf(),
        ensures
            final(self).recurring_repo.wf(),
            final(self).transaction_repo.wf(),
            *final(final(self).recurring_repo) == *final(old(self).recurring_repo),
            *final(final(self).transaction_repo) == *final(old(self).transaction_repo),
            exists|now: Timestamp| #![trigger to_process(old(self).recurring_repo@, now)] ({
                &&& r matches Ok(ids) ==> ({
                    let due = to_process(old(self).recurring_repo@, now);
                    let before = old(self).transaction_repo@;
                    let after = final(self).transaction_repo@;
                    &&& ids@.len() == due.len()
                    &&& after.len() == before.len() + due.len()
                    &&& after.take(before.len() as int) == before
                    &&& forall|k: int| 0 <= k < due.len() ==> #[trigger] produced_by(after[before.len() + k], due[k])
                        && ids@[k] == after[before.len() + k].base.id
                    &&& final(self).recurring_repo@ == advance_due(old(self).recurring_repo@, now)
                })
                &&& (r matches Err(e) && e is Validation) <==> !due_advance(old(self).recurring_repo@, now)
                &&& !due_advance(old(self).recurring_repo@, now) ==> final(self).recurring_repo@ == old(self).recurring_repo@
                    && final(self).transaction_repo@ == old(self).transaction_repo@
            }),
            r matches Err(e) ==> (e is InvalidAmount && e.message() == non_positive_amount_message())
                || (e is Storage && e.message() == duplicate_transaction_message())
                || (e is Validation && e.message() == no_next_occurrence_message()),
            r matches Err(e) && e is InvalidAmount ==> exists|i: int| 0 <= i < old(self).recurring_repo@.len()
                && (#[trigger] old(self).recurring_repo@[i]).is_active && !old(self).recurring_repo@[i].retired()
                && old(self).recurring_repo@[i].amount <= 0,
            r matches Err(e) && e is Storage ==> final(self).transaction_repo@.len() > 0,
    {
        let now = Timestamp::now();
        if !due_templates_advance(self.recurring_repo, now) {
            return Err(validation("A due template's next occurrence is beyond the supported dates"));
        }
        let r = self.process_due_at(now);
        proof {
            let rows = old(self).recurring_repo@;
            let tp = to_process(rows, now);
            if r is Err && r->Err_0 is InvalidAmount {
                assert(!(forall|k: int| 0 <= k < tp.len() ==> (#[trigger] tp[k]).amount > 0));
                let k = choose|k: int| 0 <= k < tp.len() && !((#[trigger] tp[k]).amount > 0);
                lemma_filter_members(rows, |t: RecurringTransaction| due_now(t, now));
                assert(rows.contains(tp[k]));
                let j = choose|j: int| 0 <= j < rows.len() && rows[j] == tp[k];
                assert(rows[j].is_active && !rows[j].retired() && rows[j].amount <= 0);
            }
        }
        r
    }
}

} // verus!
