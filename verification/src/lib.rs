//! Verified core of the PromptOps Arena game server.

pub mod config;
pub mod domain;
pub mod event_bus;
pub mod format;
pub mod json;
pub mod persistence;
pub mod seqs;
pub mod services;
pub mod text;
