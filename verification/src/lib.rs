//! Offline-first personal finance core: entities, in-memory repositories,
//! use cases and the synchronization decisions, with their contracts.

pub mod time;
pub mod date_utils;
pub mod ids;
pub mod text;
pub mod errors;
pub mod entities;
pub mod records;
pub mod queries;
pub mod repositories;
pub mod use_cases;
pub mod sync;
pub mod laws;
pub mod json;
