//! Search the lines of a text for a query, with or without regard to case,
//! and resolve a command line into a search configuration.

pub mod config;
pub mod search;
pub mod text;
