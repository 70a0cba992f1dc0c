//! Synchronises course, assignment, student and submission records from a
//! paginated web API into a relational cache, and aggregates the cached rows
//! into per-student and per-assignment reports.

pub mod data;
pub mod modules;
pub mod shell;
