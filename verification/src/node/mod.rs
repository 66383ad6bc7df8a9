//! The node: one running device, shared by all its libraries.

pub mod config;
