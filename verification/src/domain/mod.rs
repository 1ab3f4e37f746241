//! Domain model modules.

pub mod action;
pub mod agent;
pub mod error;
pub mod event;
pub mod game_match;
pub mod ids;
pub mod map;
pub mod match_;
pub mod player;
pub mod room;
pub mod slot;
pub mod team;
