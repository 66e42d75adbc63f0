//! Branch store for a local version-control repository.
//!
//! The crate turns the output of the version-control tool into an ordered
//! list of branch names and keeps that list in step with the deletions it is
//! asked to carry out. It runs no process itself: the caller runs each command
//! the store hands out and gives the outcome back.

pub mod git;
pub mod parser;
pub mod process;
pub mod row_data;
pub mod store;
pub mod text;
