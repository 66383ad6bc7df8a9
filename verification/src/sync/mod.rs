//! The operation log, its logical clock, the batch codec and the decisions of
//! the three actors that move operations between instances.

pub mod actors;
pub mod assoc;
pub mod backoff;
pub mod canonical;
pub mod clock;
pub mod compressed;
pub mod converge;
pub mod ingest;
pub mod log;
pub mod operation;
pub mod receive;
pub mod send;
pub mod timestamp;
