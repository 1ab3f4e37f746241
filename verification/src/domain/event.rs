//! Game events, public game state and the records a match keeps.

use std::collections::HashMap;

use vstd::prelude::*;

use crate::domain::action::AgentDecision;
use crate::domain::agent::{AgentStatus, GameAgent};
use crate::domain::ids::{AgentId, EventId, MapId, MatchId, PlayerId, RoomCode, RoomId, SlotId, TeamId, NodeId};
use crate::domain::map::{clone_opt_team, ControlNode, Position};
use crate::domain::match_::MatchResult;
use crate::domain::player::{Player, Timestamp};
use crate::domain::room::{Room, RoomConfig, RoomStatus};
use crate::domain::slot::{clone_opt_string, RoleName};
use crate::json::clone_json;

verus! {

/// The kinds of game events.
#[derive(Debug, Clone, Copy, PartialEq, Eq, Hash, Structural)]
pub enum GameEventType {
    MatchStarted,
    TurnStarted,
    AgentDecisionReceived,
    InvalidActionReplaced,
    AgentMoved,
    MovementConflict,
    AgentAttacked,
    SkillUsed,
    DamageDealt,
    AgentHealed,
    AgentDowned,
    AgentRespawned,
    NodeControlChanged,
    ScoreChanged,
    TurnFinished,
    MatchFinished,
    MatchFailed,
}

/// An event of a match, with a JSON payload that depends on its kind.
#[derive(Debug, PartialEq, Eq)]
pub struct GameEvent {
    pub id: EventId,
    pub match_id: MatchId,
    pub turn: u32,
    pub sequence: u64,
    pub event_type: GameEventType,
    pub actor_agent_id: Option<AgentId>,
    pub payload: serde_json::Value,
    pub created_at: Timestamp,
}

/// A copy of an optional agent identifier.
pub(crate) fn clone_opt_agent(o: &Option<AgentId>) -> (r: Option<AgentId>)
    ensures
        r == *o,
{
    match o {
        Some(a) => Some(a.clone()),
        None => None,
    }
}

impl Clone for GameEvent {
    fn clone(&self) -> (r: Self)
        ensures
            r == *self,
    {
        GameEvent {
            id: self.id.clone(),
            match_id: self.match_id.clone(),
            turn: self.turn,
            sequence: self.sequence,
            event_type: self.event_type,
            actor_agent_id: clone_opt_agent(&self.actor_agent_id),
            payload: clone_json(&self.payload),
            created_at: self.created_at,
        }
    }
}

impl GameEvent {
    pub fn new(
        id: EventId,
        match_id: MatchId,
        turn: u32,
        sequence: u64,
        event_type: GameEventType,
        actor_agent_id: Option<AgentId>,
        payload: serde_json::Value,
        created_at: Timestamp,
    ) -> (r: Self)
        ensures
            r == (GameEvent { id, match_id, turn, sequence, event_type, actor_agent_id, payload, created_at }),
    {
        Self { id, match_id, turn, sequence, event_type, actor_agent_id, payload, created_at }
    }
}

/// What everyone may see of an agent.
#[derive(Debug, PartialEq, Eq)]
pub struct PublicAgentState {
    pub id: AgentId,
    pub team_id: TeamId,
    pub role: RoleName,
    pub display_name: Option<String>,
    pub hp: i32,
    pub max_hp: i32,
    pub position: Position,
    pub status: AgentStatus,
    pub marked: bool,
    pub shield: i32,
}

impl Clone for PublicAgentState {
    fn clone(&self) -> (r: Self)
        ensures
            r == *self,
    {
        PublicAgentState {
            id: self.id.clone(),
            team_id: self.team_id.clone(),
            role: self.role,
            display_name: clone_opt_string(&self.display_name),
            hp: self.hp,
            max_hp: self.max_hp,
            position: self.position,
            status: self.status,
            marked: self.marked,
            shield: self.shield,
        }
    }
}

/// The public state of an agent.
pub open spec fn spec_public_agent(a: GameAgent) -> PublicAgentState {
    PublicAgentState {
        id: a.id,
        team_id: a.team_id,
        role: a.role,
        display_name: a.display_name,
        hp: a.hp,
        max_hp: a.max_hp,
        position: a.position,
        status: a.status,
        marked: a.marked,
        shield: a.shield,
    }
}

impl<'a> From<&'a GameAgent> for PublicAgentState {
    fn from(a: &'a GameAgent) -> (r: Self) {
        Self {
            id: a.id.clone(),
            team_id: a.team_id.clone(),
            role: a.role,
            display_name: clone_opt_string(&a.display_name),
            hp: a.hp,
            max_hp: a.max_hp,
            position: a.position,
            status: a.status,
            marked: a.marked,
            shield: a.shield,
        }
    }
}

impl<'a> vstd::std_specs::convert::FromSpecImpl<&'a GameAgent> for PublicAgentState {
    open spec fn obeys_from_spec() -> bool {
        true
    }

    open spec fn from_spec(a: &'a GameAgent) -> Self {
        spec_public_agent(*a)
    }
}

/// What everyone may see of a control node.
#[derive(Debug, PartialEq, Eq)]
pub struct PublicNodeState {
    pub id: NodeId,
    pub name: String,
    pub position: Position,
    pub score_value: i32,
    pub controlled_by: Option<TeamId>,
}

impl Clone for PublicNodeState {
    fn clone(&self) -> (r: Self)
        ensures
            r == *self,
    {
        PublicNodeState {
            id: self.id.clone(),
            name: self.name.clone(),
            position: self.position,
            score_value: self.score_value,
            controlled_by: clone_opt_team(&self.controlled_by),
        }
    }
}

/// The public state of a control node.
pub open spec fn spec_public_node(n: ControlNode) -> PublicNodeState {
    PublicNodeState {
        id: n.id,
        name: n.name,
        position: n.position,
        score_value: n.score_value,
        controlled_by: n.controlled_by,
    }
}

impl<'a> From<&'a ControlNode> for PublicNodeState {
    fn from(n: &'a ControlNode) -> (r: Self) {
        Self {
            id: n.id.clone(),
            name: n.name.clone(),
            position: n.position,
            score_value: n.score_value,
            controlled_by: clone_opt_team(&n.controlled_by),
        }
    }
}

impl<'a> vstd::std_specs::convert::FromSpecImpl<&'a ControlNode> for PublicNodeState {
    open spec fn obeys_from_spec() -> bool {
        true
    }

    open spec fn from_spec(n: &'a ControlNode) -> Self {
        spec_public_node(*n)
    }
}

/// The size of a map, as agents see it.
#[derive(Debug, PartialEq, Eq)]
pub struct PublicMapSummary {
    pub map_id: MapId,
    pub width: u32,
    pub height: u32,
}

impl Clone for PublicMapSummary {
    fn clone(&self) -> (r: Self)
        ensures
            r == *self,
    {
        PublicMapSummary { map_id: self.map_id.clone(), width: self.width, height: self.height }
    }
}

/// What everyone may see of a game after a turn.
#[derive(Debug, PartialEq, Eq)]
pub struct PublicGameState {
    pub match_id: MatchId,
    pub turn: u32,
    pub map_id: MapId,
    pub agents: Vec<PublicAgentState>,
    pub nodes: Vec<PublicNodeState>,
    pub score: HashMap<TeamId, i32>,
}

/// The value of a public game state.
pub struct PublicGameStateView {
    pub match_id: MatchId,
    pub turn: u32,
    pub map_id: MapId,
    pub agents: Seq<PublicAgentState>,
    pub nodes: Seq<PublicNodeState>,
    pub score: Map<TeamId, i32>,
}

impl View for PublicGameState {
    type V = PublicGameStateView;

    open spec fn view(&self) -> PublicGameStateView {
        PublicGameStateView {
            match_id: self.match_id,
            turn: self.turn,
            map_id: self.map_id,
            agents: self.agents@,
            nodes: self.nodes@,
            score: self.score@,
        }
    }
}

impl Clone for PublicGameState {
    fn clone(&self) -> (r: Self)
        ensures
            r@ == self@,
    {
        let agents = self.agents.clone();
        let nodes = self.nodes.clone();
        assert(agents@ =~= self.agents@);
        assert(nodes@ =~= self.nodes@);
        PublicGameState {
            match_id: self.match_id.clone(),
            turn: self.turn,
            map_id: self.map_id.clone(),
            agents,
            nodes,
            score: self.score.clone(),
        }
    }
}

/// The public game state of a match after one turn.
#[derive(Debug, PartialEq, Eq)]
pub struct GameStateSnapshot {
    pub match_id: MatchId,
    pub turn: u32,
    pub state: PublicGameState,
    pub created_at: Timestamp,
}

/// The value of a snapshot.
pub struct GameStateSnapshotView {
    pub match_id: MatchId,
    pub turn: u32,
    pub state: PublicGameStateView,
    pub created_at: Timestamp,
}

impl View for GameStateSnapshot {
    type V = GameStateSnapshotView;

    open spec fn view(&self) -> GameStateSnapshotView {
        GameStateSnapshotView { match_id: self.match_id, turn: self.turn, state: self.state@, created_at: self.created_at }
    }
}

impl Clone for GameStateSnapshot {
    fn clone(&self) -> (r: Self)
        ensures
            r@ == self@,
    {
        GameStateSnapshot {
            match_id: self.match_id.clone(),
            turn: self.turn,
            state: self.state.clone(),
            created_at: self.created_at,
        }
    }
}

/// What everyone in a room may see of a player.
#[derive(Debug, PartialEq, Eq)]
pub struct PublicPlayer {
    pub id: PlayerId,
    pub display_name: String,
    pub joined_at: Timestamp,
}

impl Clone for PublicPlayer {
    fn clone(&self) -> (r: Self)
        ensures
            r == *self,
    {
        PublicPlayer { id: self.id.clone(), display_name: self.display_name.clone(), joined_at: self.joined_at }
    }
}

impl<'a> From<&'a Player> for PublicPlayer {
    fn from(p: &'a Player) -> (r: Self) {
        Self { id: p.id.clone(), display_name: p.display_name.clone(), joined_at: p.joined_at }
    }
}

impl<'a> vstd::std_specs::convert::FromSpecImpl<&'a Player> for PublicPlayer {
    open spec fn obeys_from_spec() -> bool {
        true
    }

    open spec fn from_spec(p: &'a Player) -> Self {
        PublicPlayer { id: p.id, display_name: p.display_name, joined_at: p.joined_at }
    }
}

/// What the admin dashboard lists of a room.
#[derive(Debug, PartialEq, Eq)]
pub struct RoomSummary {
    pub id: RoomId,
    pub code: RoomCode,
    pub status: RoomStatus,
    pub config: RoomConfig,
    pub player_count: usize,
    pub version: u64,
}

impl Clone for RoomSummary {
    fn clone(&self) -> (r: Self)
        ensures
            r == *self,
    {
        RoomSummary {
            id: self.id.clone(),
            code: self.code.clone(),
            status: self.status,
            config: self.config.clone(),
            player_count: self.player_count,
            version: self.version,
        }
    }
}

impl<'a> From<&'a Room> for RoomSummary {
    fn from(r: &'a Room) -> (s: Self) {
        Self {
            id: r.id.clone(),
            code: r.code.clone(),
            status: r.status,
            config: r.config.clone(),
            player_count: r.players.len(),
            version: r.version,
        }
    }
}

impl<'a> vstd::std_specs::convert::FromSpecImpl<&'a Room> for RoomSummary {
    open spec fn obeys_from_spec() -> bool {
        true
    }

    open spec fn from_spec(r: &'a Room) -> Self {
        RoomSummary {
            id: r.id,
            code: r.code,
            status: r.status,
            config: r.config,
            player_count: r.players@.len() as usize,
            version: r.version,
        }
    }
}

/// What an agent is shown before it decides.
#[derive(Debug, PartialEq, Eq)]
pub struct AgentObservation {
    pub turn: u32,
    pub self_agent: PublicAgentState,
    pub visible_allies: Vec<PublicAgentState>,
    pub visible_enemies: Vec<PublicAgentState>,
    pub known_nodes: Vec<PublicNodeState>,
    pub score: HashMap<TeamId, i32>,
    pub map_summary: PublicMapSummary,
    pub legal_action_hints: Vec<String>,
}

/// The value of an observation.
pub struct AgentObservationView {
    pub turn: u32,
    pub self_agent: PublicAgentState,
    pub visible_allies: Seq<PublicAgentState>,
    pub visible_enemies: Seq<PublicAgentState>,
    pub known_nodes: Seq<PublicNodeState>,
    pub score: Map<TeamId, i32>,
    pub map_summary: PublicMapSummary,
    pub legal_action_hints: Seq<String>,
}

impl View for AgentObservation {
    type V = AgentObservationView;

    open spec fn view(&self) -> AgentObservationView {
        AgentObservationView {
            turn: self.turn,
            self_agent: self.self_agent,
            visible_allies: self.visible_allies@,
            visible_enemies: self.visible_enemies@,
            known_nodes: self.known_nodes@,
            score: self.score@,
            map_summary: self.map_summary,
            legal_action_hints: self.legal_action_hints@,
        }
    }
}

impl Clone for AgentObservation {
    fn clone(&self) -> (r: Self)
        ensures
            r@ == self@,
    {
        let visible_allies = self.visible_allies.clone();
        let visible_enemies = self.visible_enemies.clone();
        let known_nodes = self.known_nodes.clone();
        let legal_action_hints = self.legal_action_hints.clone();
        assert(visible_allies@ =~= self.visible_allies@);
        assert(visible_enemies@ =~= self.visible_enemies@);
        assert(known_nodes@ =~= self.known_nodes@);
        assert(legal_action_hints@ =~= self.legal_action_hints@);
        AgentObservation {
            turn: self.turn,
            self_agent: self.self_agent.clone(),
            visible_allies,
            visible_enemies,
            known_nodes,
            score: self.score.clone(),
            map_summary: self.map_summary.clone(),
            legal_action_hints,
        }
    }
}

/// The record of one decision of one agent in one turn.
#[derive(Debug, PartialEq, Eq)]
pub struct AgentDecisionLog {
    pub match_id: MatchId,
    pub turn: u32,
    pub agent_id: AgentId,
    pub observation: AgentObservation,
    pub prompt_snapshot: Option<String>,
    pub raw_output: Option<String>,
    pub parsed_decision: Option<AgentDecision>,
    pub validated_decision: AgentDecision,
    pub was_fallback_used: bool,
    pub error: Option<String>,
    pub latency_ms: Option<u64>,
}

/// The value of a decision record.
pub struct AgentDecisionLogView {
    pub match_id: MatchId,
    pub turn: u32,
    pub agent_id: AgentId,
    pub observation: AgentObservationView,
    pub prompt_snapshot: Option<String>,
    pub raw_output: Option<String>,
    pub parsed_decision: Option<AgentDecision>,
    pub validated_decision: AgentDecision,
    pub was_fallback_used: bool,
    pub error: Option<String>,
    pub latency_ms: Option<u64>,
}

impl View for AgentDecisionLog {
    type V = AgentDecisionLogView;

    open spec fn view(&self) -> AgentDecisionLogView {
        AgentDecisionLogView {
            match_id: self.match_id,
            turn: self.turn,
            agent_id: self.agent_id,
            observation: self.observation@,
            prompt_snapshot: self.prompt_snapshot,
            raw_output: self.raw_output,
            parsed_decision: self.parsed_decision,
            validated_decision: self.validated_decision,
            was_fallback_used: self.was_fallback_used,
            error: self.error,
            latency_ms: self.latency_ms,
        }
    }
}

impl Clone for AgentDecisionLog {
    fn clone(&self) -> (r: Self)
        ensures
            r@ == self@,
    {
        let parsed_decision = match &self.parsed_decision {
            Some(d) => Some(d.clone()),
            None => None,
        };
        AgentDecisionLog {
            match_id: self.match_id.clone(),
            turn: self.turn,
            agent_id: self.agent_id.clone(),
            observation: self.observation.clone(),
            prompt_snapshot: clone_opt_string(&self.prompt_snapshot),
            raw_output: clone_opt_string(&self.raw_output),
            parsed_decision,
            validated_decision: self.validated_decision.clone(),
            was_fallback_used: self.was_fallback_used,
            error: clone_opt_string(&self.error),
            latency_ms: self.latency_ms,
        }
    }
}

/// Room events as the match layer reports them.
#[derive(Debug, Clone, PartialEq, Eq)]
pub enum RoomEvent {
    RoomCreated { room: RoomSummary },
    RoomUpdated { room_id: RoomId, version: u64 },
    RoomClosed { room_id: RoomId },
    RoomDeleted { room_id: RoomId },
    PlayerJoined { room_id: RoomId, player: PublicPlayer },
    PlayerLeft { room_id: RoomId, player_id: PlayerId },
    PlayerRenamed { room_id: RoomId, player_id: PlayerId, display_name: String },
    SlotClaimed { room_id: RoomId, slot_id: SlotId, player_id: PlayerId },
    SlotReleased { room_id: RoomId, slot_id: SlotId },
    SlotPromptUpdated { room_id: RoomId, slot_id: SlotId, updated_by: PlayerId },
    RoomLocked { room_id: RoomId },
    RoomUnlocked { room_id: RoomId },
    RoomStarted { room_id: RoomId, match_id: MatchId },
    RoomFinished { room_id: RoomId, match_id: MatchId, result: MatchResult },
    RoomReset { room_id: RoomId },
}

/// Live events of a running match.
#[derive(Debug, Clone, PartialEq, Eq)]
pub enum MatchLiveEvent {
    MatchCreated { room_id: RoomId, match_id: MatchId },
    MatchStarted { room_id: RoomId, match_id: MatchId },
    MatchTurnStarted { room_id: RoomId, match_id: MatchId, turn: u32 },
    MatchTurnResolved { room_id: RoomId, match_id: MatchId, turn: u32, snapshot: PublicGameState },
    MatchScoreUpdated { room_id: RoomId, match_id: MatchId, score: HashMap<TeamId, i32> },
    MatchFinished { room_id: RoomId, match_id: MatchId, result: MatchResult },
    MatchFailed { room_id: RoomId, match_id: MatchId, error: String },
}

} // verus!
