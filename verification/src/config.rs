//! Configuration values that the server reads at start-up.
//!
//! The server's address is held by the program itself, which parses it with the
//! standard library's network types.

use vstd::prelude::*;

verus! {

/// The port the HTTP server listens on unless configured otherwise.
pub const DEFAULT_PORT: u16 = 3000;

/// The tracing filter unless configured otherwise.
pub const DEFAULT_LOG_FILTER: &'static str = "promptops_arena_backend=info,tower_http=info";

/// Logging and tracing configuration.
#[derive(Debug, PartialEq, Eq)]
pub struct LogConfig {
    /// Tracing subscriber filter directive.
    pub filter: String,
}

impl Clone for LogConfig {
    fn clone(&self) -> (r: Self)
        ensures
            r == *self,
    {
        LogConfig { filter: self.filter.clone() }
    }
}

/// Configuration loading error.
#[derive(Debug, PartialEq, Eq)]
pub enum ConfigError {
    /// The configured host is not a valid IP address.
    InvalidHost {
        /// Invalid value.
        value: String,
    },
    /// The configured port is not a valid TCP port.
    InvalidPort {
        /// Invalid value.
        value: String,
    },
}

impl Clone for ConfigError {
    fn clone(&self) -> (r: Self)
        ensures
            r == *self,
    {
        match self {
            ConfigError::InvalidHost { value } => ConfigError::InvalidHost { value: value.clone() },
            ConfigError::InvalidPort { value } => ConfigError::InvalidPort { value: value.clone() },
        }
    }
}

} // verus!
