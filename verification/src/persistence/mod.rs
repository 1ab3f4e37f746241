//! The persistence layer: repository inputs and errors, and the in-memory store.

pub mod memory;
pub mod traits;
