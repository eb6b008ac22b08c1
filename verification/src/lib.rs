//! An in-memory query engine over file-metadata records: a filter over one
//! typed predicate, a grouper that derives a string key per record, and
//! aggregates evaluated per group.

pub mod calendar;
pub mod cli;
pub mod decimal;
pub mod error;
pub mod file;
pub mod file_type;
pub mod query;
pub mod table;
pub mod text;
pub mod utilities;
