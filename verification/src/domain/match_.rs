//! Match types as the live room events report them.

use std::collections::HashMap;

use vstd::prelude::*;

use crate::domain::ids::{AgentId, MapId, MatchId, PlayerId, RoomId, TeamId};
use crate::domain::player::Timestamp;
use crate::domain::slot::RoleName;
use crate::domain::team::TeamSide;

verus! {

/// The lifecycle status of a match.
#[derive(Debug, Clone, Copy, PartialEq, Eq, Hash, Structural)]
pub enum MatchStatus {
    Created,
    Running,
    Finished,
    Cancelled,
    Failed,
}

/// What decides an agent's actions.
#[derive(Debug, Clone, PartialEq, Eq)]
pub enum AgentControllerConfig {
    Llm { prompt: String },
    Scripted { strategy_id: String },
    Random,
}

/// An agent of a match and what controls it.
#[derive(Debug, Clone, PartialEq, Eq)]
pub struct MatchAgentConfig {
    pub agent_id: AgentId,
    pub role: RoleName,
    pub display_name: Option<String>,
    pub source_player_id: Option<PlayerId>,
    pub controller: AgentControllerConfig,
}

/// A team of a match.
#[derive(Debug, Clone, PartialEq, Eq)]
pub struct MatchTeamConfig {
    pub id: TeamId,
    pub name: String,
    pub side: TeamSide,
    pub agents: Vec<MatchAgentConfig>,
}

/// The configuration a match was created with.
#[derive(Debug, Clone, PartialEq, Eq)]
pub struct MatchConfigSnapshot {
    pub map_id: MapId,
    pub max_turns: u32,
    pub teams: Vec<MatchTeamConfig>,
}

/// How a match ended: the winner, the scores and the reason in words.
#[derive(Debug, Clone, PartialEq, Eq)]
pub struct MatchResult {
    pub winner: Option<TeamId>,
    pub scores: HashMap<TeamId, i32>,
    pub end_reason: String,
}

/// Why a match failed.
#[derive(Debug, Clone, PartialEq, Eq)]
pub struct MatchError {
    pub message: String,
}

/// A match and its lifecycle.
#[derive(Debug, Clone, PartialEq, Eq)]
pub struct Match {
    pub id: MatchId,
    pub room_id: RoomId,
    pub status: MatchStatus,
    pub config_snapshot: MatchConfigSnapshot,
    pub current_turn: u32,
    pub result: Option<MatchResult>,
    pub created_at: Timestamp,
    pub started_at: Option<Timestamp>,
    pub finished_at: Option<Timestamp>,
}

impl Match {
    /// A new match, not started yet, at turn 0.
    pub fn new(id: MatchId, room_id: RoomId, config_snapshot: MatchConfigSnapshot, created_at: Timestamp) -> (r: Self)
        ensures
            r == (Match {
                id,
                room_id,
                status: MatchStatus::Created,
                config_snapshot,
                current_turn: 0,
                result: None,
                created_at,
                started_at: None,
                finished_at: None,
            }),
    {
        Self {
            id,
            room_id,
            status: MatchStatus::Created,
            config_snapshot,
            current_turn: 0,
            result: None,
            created_at,
            started_at: None,
            finished_at: None,
        }
    }
}

} // verus!
