//! Locations: the folders that a library watches, and those it does not.

pub mod indexer_rules;
pub mod non_indexed;
