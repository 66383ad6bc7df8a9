//! Replication core of a local-first library: every instance keeps a full
//! replica, records each change as an operation stamped by a logical clock,
//! and exchanges operations with its peers in compressed batches.

pub mod api;
pub mod ident;
pub mod json;
pub mod library;
pub mod location;
pub mod node;
pub mod sync;
pub mod text;
