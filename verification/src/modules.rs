//! The modules of the program: what each one refreshes and reports.

pub mod current_mod;
pub mod module;
pub mod order;
pub mod refresh;
pub mod report;
