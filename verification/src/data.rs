//! Records, configuration and the request logic of the synchronisation.

pub mod assignment;
pub mod config;
pub mod connections;
pub mod course;
pub mod error;
pub mod student;
pub mod submission;
pub mod text;
