//! Libraries: one replicated database each.

pub mod config;
pub mod manager;
pub mod statistics;
