//! Records read back from stored text columns: identifiers as UUID text, instants as
//! RFC 3339 text, enumerations by name with a fallback for unknown names.
use vstd::prelude::*;
use crate::entities::budget::{Budget, BudgetPeriod};
use crate::entities::common::{BaseEntity, TransactionType};
use crate::entities::recurring_transaction::{RecurrenceFrequency, RecurringTransaction};
use crate::errors::StorageError;
use crate::ids::{EntityId, parse_entity_id, uuid_parse};
use crate::text::unicode_lowercase;
use crate::time::{Timestamp, parse_timestamp, rfc3339_instant};

verus! {

/// Message of the error for a stored identifier that is not UUID text.
pub open spec fn invalid_id_message() -> Seq<char> {
    "Invalid UUID in stored row"@
}

/// Message of the error for a stored instant that is not RFC 3339 text.
pub open spec fn invalid_date_message() -> Seq<char> {
    "Invalid date in stored row"@
}

/// An optional stored identifier: `Some(None)` for no text, `None` for text that is not
/// UUID text.
pub open spec fn optional_id_value(text: Option<&str>) -> Option<Option<EntityId>> {
    match text {
        None => Some(None),
        Some(t) => match uuid_parse(t@) {
            Some(id) => Some(Some(id)),
            None => None,
        },
    }
}

/// An optional stored instant: `Some(None)` for no text, `None` for text that is not a
/// representable RFC 3339 instant.
pub open spec fn optional_time_value(text: Option<&str>) -> Option<Option<Timestamp>> {
    match text {
        None => Some(None),
        Some(t) => match rfc3339_instant(t@) {
            Some(x) => Some(Some(x)),
            None => None,
        },
    }
}

/// The common fields stored as text, when every column reads.
pub open spec fn base_value(id: &str, created: &str, updated: &str, deleted: Option<&str>) -> Option<BaseEntity> {
    match (uuid_parse(id@), rfc3339_instant(created@), rfc3339_instant(updated@), optional_time_value(deleted)) {
        (Some(i), Some(c), Some(u), Some(d)) => Some(BaseEntity { id: i, created_at: c, updated_at: u, deleted_at: d }),
        _ => None,
    }
}

/// Whether `e` is the error for stored text that does not read.
pub open spec fn is_column_error(e: StorageError) -> bool {
    e is Query && (e->Query_0@ == invalid_id_message() || e->Query_0@ == invalid_date_message())
}

/// A stored identifier.
pub fn id_column(text: &str) -> (r: Result<EntityId, StorageError>)
    ensures
        r is Ok <==> uuid_parse(text@) is Some,
        r matches Ok(id) ==> uuid_parse(text@) == Some(id),
        r matches Err(e) ==> e is Query && e->Query_0@ == invalid_id_message(),
{
    match parse_entity_id(text) {
        Some(id) => Ok(id),
        None => Err(StorageError::Query("Invalid UUID in stored row".to_string())),
    }
}

/// An optional stored identifier.
pub fn optional_id_column(text: Option<&str>) -> (r: Result<Option<EntityId>, StorageError>)
    ensures
        r is Ok <==> optional_id_value(text) is Some,
        r matches Ok(v) ==> optional_id_value(text) == Some(v),
        r matches Err(e) ==> e is Query && e->Query_0@ == invalid_id_message(),
{
    match text {
        None => Ok(None),
        Some(t) => match id_column(t) {
            Ok(id) => Ok(Some(id)),
            Err(e) => Err(e),
        },
    }
}

/// A stored instant.
pub fn time_column(text: &str) -> (r: Result<Timestamp, StorageError>)
    ensures
        r is Ok <==> rfc3339_instant(text@) is Some,
        r matches Ok(t) ==> rfc3339_instant(text@) == Some(t),
        r matches Err(e) ==> e is Query && e->Query_0@ == invalid_date_message(),
{
    match parse_timestamp(text) {
        Some(t) => Ok(t),
        None => Err(StorageError::Query("Invalid date in stored row".to_string())),
    }
}

/// An optional stored instant.
pub fn optional_time_column(text: Option<&str>) -> (r: Result<Option<Timestamp>, StorageError>)
    ensures
        r is Ok <==> optional_time_value(text) is Some,
        r matches Ok(v) ==> optional_time_value(text) == Some(v),
        r matches Err(e) ==> e is Query && e->Query_0@ == invalid_date_message(),
{
    match text {
        None => Ok(None),
        Some(t) => match time_column(t) {
            Ok(x) => Ok(Some(x)),
            Err(e) => Err(e),
        },
    }
}

/// The common fields of a stored record.
pub fn base_columns(id: &str, created: &str, updated: &str, deleted: Option<&str>) -> (r: Result<BaseEntity, StorageError>)
    ensures
        r is Ok <==> base_value(id, created, updated, deleted) is Some,
        r matches Ok(b) ==> base_value(id, created, updated, deleted) == Some(b),
        r matches Err(e) ==> is_column_error(e),
{
    let i = id_column(id)?;
    let c = time_column(created)?;
    let u = time_column(updated)?;
    let d = optional_time_column(deleted)?;
    Ok(BaseEntity { id: i, created_at: c, updated_at: u, deleted_at: d })
}

/// The budget stored in these columns, when every column reads; an unknown period name
/// reads as monthly.
pub open spec fn budget_value(
    id: &str,
    account_id: &str,
    category_id: Option<&str>,
    name: String,
    amount: i64,
    period: &str,
    start: &str,
    created: &str,
    updated: &str,
    deleted: Option<&str>,
) -> Option<Budget> {
    match (base_value(id, created, updated, deleted), uuid_parse(account_id@), optional_id_value(category_id),
        rfc3339_instant(start@)) {
        (Some(base), Some(a), Some(c), Some(s)) => Some(Budget {
            base,
            account_id: a,
            category_id: c,
            name,
            amount,
            period: match BudgetPeriod::parse(unicode_lowercase(period@)) {
                Some(p) => p,
                None => BudgetPeriod::Monthly,
            },
            start_date: s,
        }),
        _ => None,
    }
}

/// The budget stored in these columns; fails when an identifier or an instant does not
/// read. An unknown period name reads as monthly.
pub fn budget_from_columns(
    id: &str,
    account_id: &str,
    category_id: Option<&str>,
    name: String,
    amount: i64,
    period: &str,
    start: &str,
    created: &str,
    updated: &str,
    deleted: Option<&str>,
) -> (r: Result<Budget, StorageError>)
    ensures
        r is Ok <==> budget_value(id, account_id, category_id, name, amount, period, start, created, updated, deleted) is Some,
        r matches Ok(b) ==> budget_value(id, account_id, category_id, name, amount, period, start, created, updated, deleted)
            == Some(b),
        r matches Err(e) ==> is_column_error(e),
{
    let base = base_columns(id, created, updated, deleted)?;
    let account = id_column(account_id)?;
    let category = optional_id_column(category_id)?;
    let start_date = time_column(start)?;
    let period = match BudgetPeriod::from_str(period) {
        Some(p) => p,
        None => BudgetPeriod::Monthly,
    };
    Ok(Budget { base, account_id: account, category_id: category, name, amount, period, start_date })
}

/// The recurring template stored in these columns, when every column reads; an unknown
/// transaction type reads as an expense and an unknown frequency as monthly.
pub open spec fn recurring_value(
    id: &str,
    account_id: &str,
    category_id: &str,
    amount: i64,
    transaction_type: &str,
    description: String,
    frequency: &str,
    start: &str,
    end: Option<&str>,
    next: &str,
    is_active: bool,
    created: &str,
    updated: &str,
    deleted: Option<&str>,
) -> Option<RecurringTransaction> {
    match (base_value(id, created, updated, deleted), uuid_parse(account_id@), uuid_parse(category_id@),
        rfc3339_instant(start@), optional_time_value(end), rfc3339_instant(next@)) {
        (Some(base), Some(a), Some(c), Some(s), Some(e), Some(n)) => Some(RecurringTransaction {
            base,
            account_id: a,
            category_id: c,
            amount,
            transaction_type: match TransactionType::parse(transaction_type@) {
                Some(k) => k,
                None => TransactionType::Expense,
            },
            description,
            frequency: match RecurrenceFrequency::parse(unicode_lowercase(frequency@)) {
                Some(f) => f,
                None => RecurrenceFrequency::Monthly,
            },
            start_date: s,
            end_date: e,
            next_occurrence: n,
            is_active,
        }),
        _ => None,
    }
}

/// The recurring template stored in these columns; fails when an identifier or an instant
/// does not read. An unknown transaction type reads as an expense and an unknown
/// frequency as monthly.
pub fn recurring_from_columns(
    id: &str,
    account_id: &str,
    category_id: &str,
    amount: i64,
    transaction_type: &str,
    description: String,
    frequency: &str,
    start: &str,
    end: Option<&str>,
    next: &str,
    is_active: bool,
    created: &str,
    updated: &str,
    deleted: Option<&str>,
) -> (r: Result<RecurringTransaction, StorageError>)
    ensures
        r is Ok <==> recurring_value(id, account_id, category_id, amount, transaction_type, description, frequency,
            start, end, next, is_active, created, updated, deleted) is Some,
        r matches Ok(t) ==> recurring_value(id, account_id, category_id, amount, transaction_type, description,
            frequency, start, end, next, is_active, created, updated, deleted) == Some(t),
        r matches Err(e) ==> is_column_error(e),
{
    let base = base_columns(id, created, updated, deleted)?;
    let account = id_column(account_id)?;
    let category = id_column(category_id)?;
    let start_date = time_column(start)?;
    let end_date = optional_time_column(end)?;
    let next_occurrence = time_column(next)?;
    let kind = match TransactionType::from_str(transaction_type) {
        Some(k) => k,
        None => TransactionType::Expense,
    };
    let freq = match RecurrenceFrequency::from_str(frequency) {
        Some(f) => f,
        None => RecurrenceFrequency::Monthly,
    };
    Ok(RecurringTransaction {
        base,
        account_id: account,
        category_id: category,
        amount,
        transaction_type: kind,
        description,
        frequency: freq,
        start_date,
        end_date,
        next_occurrence,
        is_active,
    })
}

} // verus!
