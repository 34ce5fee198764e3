//! A convenience layer over a full-text search engine: callers register flat
//! record types under named collections, the library derives a typed field
//! schema from a sample record, and records can then be written, retrieved and
//! deleted through free-text queries or structured boolean conditions.

pub mod document;
pub mod errors;
pub mod fuzzy;
pub mod prelude;
pub mod query;
pub mod registry;
pub mod seed;
pub mod utils;
