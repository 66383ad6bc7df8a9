//! What the host application sees of the core.

pub mod locations;
pub mod router;
