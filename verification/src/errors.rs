//! Domain-level errors.
use vstd::prelude::*;
use crate::ids::{EntityId, entity_id_text, uuid_text};

verus! {

/// Domain-level errors, each with a human-readable message.
#[derive(Debug, Clone, PartialEq, Eq)]
pub enum DomainError {
    InvalidAmount(String),
    NotFound(String),
    Validation(String),
    Conflict(String),
    Storage(String),
    Sync(String),
}

impl DomainError {
    /// The message carried by the error.
    pub open spec fn message(self) -> Seq<char> {
        match self {
            DomainError::InvalidAmount(m) => m@,
            DomainError::NotFound(m) => m@,
            DomainError::Validation(m) => m@,
            DomainError::Conflict(m) => m@,
            DomainError::Storage(m) => m@,
            DomainError::Sync(m) => m@,
        }
    }

    /// The error text shown to users: a prefix naming the kind, then the message.
    pub fn describe(&self) -> (r: String)
        ensures
            r@ == self.kind_prefix() + self.message(),
    {
        let (prefix, m) = match self {
            DomainError::InvalidAmount(m) => ("Invalid amount: ", m),
            DomainError::NotFound(m) => ("Entity not found: ", m),
            DomainError::Validation(m) => ("Validation error: ", m),
            DomainError::Conflict(m) => ("Conflict: ", m),
            DomainError::Storage(m) => ("Storage error: ", m),
            DomainError::Sync(m) => ("Sync error: ", m),
        };
        let mut r = prefix.to_string();
        r.append(m.as_str());
        r
    }

    /// The prefix naming the kind of error.
    pub open spec fn kind_prefix(self) -> Seq<char> {
        match self {
            DomainError::InvalidAmount(_) => "Invalid amount: "@,
            DomainError::NotFound(_) => "Entity not found: "@,
            DomainError::Validation(_) => "Validation error: "@,
            DomainError::Conflict(_) => "Conflict: "@,
            DomainError::Storage(_) => "Storage error: "@,
            DomainError::Sync(_) => "Sync error: "@,
        }
    }
}

/// Message of the error for a missing entity: its kind, its identifier, then "not found".
pub open spec fn not_found_text(kind: Seq<char>, id: EntityId) -> Seq<char> {
    kind + " "@ + uuid_text(id) + " not found"@
}

/// The error for a missing entity of kind `kind` (such as "Account") with identifier `id`.
pub fn not_found(kind: &str, id: EntityId) -> (r: DomainError)
    ensures
        r is NotFound,
        r.message() == not_found_text(kind@, id),
{
    let mut m = kind.to_string();
    m.append(" ");
    let id_text = entity_id_text(id);
    m.append(id_text.as_str());
    m.append(" not found");
    DomainError::NotFound(m)
}

/// A validation error with message `m`.
pub fn validation(m: &str) -> (r: DomainError)
    ensures
        r is Validation,
        r.message() == m@,
{
    DomainError::Validation(m.to_string())
}

/// The error of a request whose arguments arrive as text: an argument that does not read,
/// or the error of the operation itself.
#[derive(Debug, Clone, PartialEq, Eq)]
pub enum RequestError {
    InvalidInput(String),
    Domain(DomainError),
}

/// Errors of the storage layer, each with a message.
#[derive(Debug, Clone, PartialEq, Eq)]
pub enum StorageError {
    Connection(String),
    Migration(String),
    Query(String),
    NotFound(String),
}

/// The text of a failed query's error: its kind, then the detail.
pub open spec fn query_error_text(detail: Seq<char>) -> Seq<char> {
    "Query error: "@ + detail
}

impl StorageError {
    /// The error text: a prefix naming the kind, then the message.
    pub open spec fn text(self) -> Seq<char> {
        match self {
            StorageError::Connection(m) => "Connection error: "@ + m@,
            StorageError::Migration(m) => "Migration error: "@ + m@,
            StorageError::Query(m) => query_error_text(m@),
            StorageError::NotFound(m) => "Not found: "@ + m@,
        }
    }

    /// The error text: a prefix naming the kind, then the message.
    pub fn describe(&self) -> (r: String)
        ensures
            r@ == self.text(),
    {
        let (prefix, m) = match self {
            StorageError::Connection(m) => ("Connection error: ", m),
            StorageError::Migration(m) => ("Migration error: ", m),
            StorageError::Query(m) => ("Query error: ", m),
            StorageError::NotFound(m) => ("Not found: ", m),
        };
        let mut r = prefix.to_string();
        r.append(m.as_str());
        r
    }

    /// The domain error a storage error becomes: a storage error carrying its text.
    pub fn into_domain(self) -> (r: DomainError)
        ensures
            r is Storage,
            r.message() == self.text(),
    {
        DomainError::Storage(self.describe())
    }
}

} // verus!
