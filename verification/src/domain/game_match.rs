//! Match configuration and lifecycle domain types.

use std::collections::HashMap;

use vstd::prelude::*;

use crate::domain::ids::{AgentId, MapId, MatchId, PlayerId, RoomId, TeamId};
use crate::domain::player::Timestamp;
use crate::domain::slot::{clone_opt_player, clone_opt_string, RoleName};
use crate::domain::team::TeamSide;
use crate::domain::map::clone_opt_team;

verus! {

/// The lifecycle status of a match.
#[derive(Debug, Copy, Clone, PartialEq, Eq, Hash, Structural)]
pub enum MatchStatus {
    Created,
    Running,
    Finished,
    Cancelled,
    Failed,
}

/// A match: the simulation a room starts from its locked snapshot.
#[derive(Debug, PartialEq, Eq)]
pub struct Match {
    pub id: MatchId,
    pub room_id: RoomId,
    pub status: MatchStatus,
    pub config_snapshot: MatchConfigSnapshot,
    pub current_turn: u32,
    pub result: Option<MatchResult>,
    pub created_at: Timestamp,
    pub started_at: Option<Timestamp>,
    pub finished_at: Option<Timestamp>,
}

/// The configuration a match was created with, fixed for its lifetime.
#[derive(Debug, PartialEq, Eq)]
pub struct MatchConfigSnapshot {
    pub map_id: MapId,
    pub max_turns: u32,
    pub teams: Vec<MatchTeamConfig>,
}

/// A team of a match.
#[derive(Debug, PartialEq, Eq)]
pub struct MatchTeamConfig {
    pub id: TeamId,
    pub name: String,
    pub side: TeamSide,
    pub agents: Vec<MatchAgentConfig>,
}

/// An agent of a match and what controls it.
#[derive(Debug, PartialEq, Eq)]
pub struct MatchAgentConfig {
    pub agent_id: AgentId,
    pub role: RoleName,
    pub display_name: Option<String>,
    pub source_player_id: Option<PlayerId>,
    pub controller: AgentControllerConfig,
}

/// What decides an agent's actions.
#[derive(Debug, PartialEq, Eq)]
pub enum AgentControllerConfig {
    Llm { prompt: String },
    Scripted { strategy_id: String },
    Random,
}

/// How a match ended.
#[derive(Debug, PartialEq, Eq)]
pub struct MatchResult {
    pub winner: Option<TeamId>,
    pub score: HashMap<TeamId, i32>,
    pub reason: MatchEndReason,
}

/// Why a match ended.
#[derive(Debug, Copy, Clone, PartialEq, Eq, Structural)]
pub enum MatchEndReason {
    MaxTurnsReached,
    Cancelled,
    Failed,
}

/// The value of a team configuration, with its agents as a sequence.
pub struct MatchTeamConfigView {
    pub id: TeamId,
    pub name: String,
    pub side: TeamSide,
    pub agents: Seq<MatchAgentConfig>,
}

/// The value of a match configuration, with its teams as a sequence.
pub struct MatchConfigSnapshotView {
    pub map_id: MapId,
    pub max_turns: u32,
    pub teams: Seq<MatchTeamConfigView>,
}

/// The value of a match result, with its score as a map.
pub struct MatchResultView {
    pub winner: Option<TeamId>,
    pub score: Map<TeamId, i32>,
    pub reason: MatchEndReason,
}

/// The value of a match.
pub struct MatchView {
    pub id: MatchId,
    pub room_id: RoomId,
    pub status: MatchStatus,
    pub config_snapshot: MatchConfigSnapshotView,
    pub current_turn: u32,
    pub result: Option<MatchResultView>,
    pub created_at: Timestamp,
    pub started_at: Option<Timestamp>,
    pub finished_at: Option<Timestamp>,
}

impl View for MatchTeamConfig {
    type V = MatchTeamConfigView;

    open spec fn view(&self) -> MatchTeamConfigView {
        MatchTeamConfigView { id: self.id, name: self.name, side: self.side, agents: self.agents@ }
    }
}

impl View for MatchConfigSnapshot {
    type V = MatchConfigSnapshotView;

    open spec fn view(&self) -> MatchConfigSnapshotView {
        MatchConfigSnapshotView {
            map_id: self.map_id,
            max_turns: self.max_turns,
            teams: self.teams@.map_values(|t: MatchTeamConfig| t@),
        }
    }
}

impl View for MatchResult {
    type V = MatchResultView;

    open spec fn view(&self) -> MatchResultView {
        MatchResultView { winner: self.winner, score: self.score@, reason: self.reason }
    }
}

/// The value of an optional match result.
pub open spec fn opt_result_view(r: Option<MatchResult>) -> Option<MatchResultView> {
    match r {
        Some(x) => Some(x@),
        None => None,
    }
}

impl View for Match {
    type V = MatchView;

    open spec fn view(&self) -> MatchView {
        MatchView {
            id: self.id,
            room_id: self.room_id,
            status: self.status,
            config_snapshot: self.config_snapshot@,
            current_turn: self.current_turn,
            result: opt_result_view(self.result),
            created_at: self.created_at,
            started_at: self.started_at,
            finished_at: self.finished_at,
        }
    }
}

impl Clone for AgentControllerConfig {
    fn clone(&self) -> (r: Self)
        ensures
            r == *self,
    {
        match self {
            AgentControllerConfig::Llm { prompt } => AgentControllerConfig::Llm { prompt: prompt.clone() },
            AgentControllerConfig::Scripted { strategy_id } => AgentControllerConfig::Scripted { strategy_id: strategy_id.clone() },
            AgentControllerConfig::Random => AgentControllerConfig::Random,
        }
    }
}

impl Clone for MatchAgentConfig {
    fn clone(&self) -> (r: Self)
        ensures
            r == *self,
    {
        MatchAgentConfig {
            agent_id: self.agent_id.clone(),
            role: self.role,
            display_name: clone_opt_string(&self.display_name),
            source_player_id: clone_opt_player(&self.source_player_id),
            controller: self.controller.clone(),
        }
    }
}

impl Clone for MatchTeamConfig {
    fn clone(&self) -> (r: Self)
        ensures
            r@ == self@,
    {
        let agents = self.agents.clone();
        assert(agents@ =~= self.agents@);
        MatchTeamConfig { id: self.id.clone(), name: self.name.clone(), side: self.side, agents }
    }
}

impl Clone for MatchConfigSnapshot {
    fn clone(&self) -> (r: Self)
        ensures
            r@ == self@,
    {
        let teams = self.teams.clone();
        assert forall|i: int| 0 <= i < teams@.len() implies (#[trigger] teams@[i])@ == self.teams@[i]@ by {
            assert(vstd::pervasive::cloned(self.teams@[i], teams@[i]));
        }
        assert(teams@.map_values(|t: MatchTeamConfig| t@) =~= self.teams@.map_values(|t: MatchTeamConfig| t@));
        MatchConfigSnapshot { map_id: self.map_id.clone(), max_turns: self.max_turns, teams }
    }
}

impl Clone for MatchResult {
    fn clone(&self) -> (r: Self)
        ensures
            r@ == self@,
    {
        MatchResult { winner: clone_opt_team(&self.winner), score: self.score.clone(), reason: self.reason }
    }
}

/// A copy of an optional match result.
pub(crate) fn clone_opt_result(o: &Option<MatchResult>) -> (r: Option<MatchResult>)
    ensures
        opt_result_view(r) == opt_result_view(*o),
{
    match o {
        Some(x) => Some(x.clone()),
        None => None,
    }
}

impl Clone for Match {
    fn clone(&self) -> (r: Self)
        ensures
            r@ == self@,
    {
        Match {
            id: self.id.clone(),
            room_id: self.room_id.clone(),
            status: self.status,
            config_snapshot: self.config_snapshot.clone(),
            current_turn: self.current_turn,
            result: clone_opt_result(&self.result),
            created_at: self.created_at,
            started_at: self.started_at,
            finished_at: self.finished_at,
        }
    }
}

impl Match {
    /// A new match, not started yet, at turn 0.
    #[must_use]
    pub fn new(id: MatchId, room_id: RoomId, config_snapshot: MatchConfigSnapshot, timestamp: Timestamp) -> (r: Self)
        ensures
            r == (Match {
                id,
                room_id,
                status: MatchStatus::Created,
                config_snapshot,
                current_turn: 0,
                result: None,
                created_at: timestamp,
                started_at: None,
                finished_at: None,
            }),
    {
        Self {
            id,
            room_id,
            status: MatchStatus::Created,
            config_snapshot,
            current_turn: 0,
            result: None,
            created_at: timestamp,
            started_at: None,
            finished_at: None,
        }
    }
}

} // verus!
