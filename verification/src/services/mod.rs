//! Application services.

pub mod room;
