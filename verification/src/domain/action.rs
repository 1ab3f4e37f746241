//! Structured agent decisions and actions.

use vstd::prelude::*;

use crate::domain::ids::{AgentId, NodeId};
use crate::domain::map::Position;

verus! {

/// The skills of the roles.
#[derive(Debug, Copy, Clone, PartialEq, Eq, Hash, Structural)]
pub enum SkillName {
    Push,
    FocusShot,
    Heal,
    HoldPosition,
    Mark,
    Hack,
}

/// What an agent decides to do in one turn.
#[derive(Debug, PartialEq, Eq)]
pub struct AgentDecision {
    pub intent: Option<String>,
    pub movement: MovementDecision,
    pub action: ActionDecision,
}

/// Whether `d` is the decision an agent falls back to: stay and wait.
pub open spec fn is_fallback_decision(d: AgentDecision) -> bool {
    d == AgentDecision { intent: None, movement: MovementDecision::Stay, action: ActionDecision::Wait }
}

impl AgentDecision {
    /// The decision used when an agent's own one is missing or invalid: stay and wait.
    #[must_use]
    pub fn fallback() -> (r: Self)
        ensures
            is_fallback_decision(r),
    {
        Self { intent: None, movement: MovementDecision::Stay, action: ActionDecision::Wait }
    }
}

impl Default for AgentDecision {
    fn default() -> (r: Self)
        ensures
            is_fallback_decision(r),
    {
        Self::fallback()
    }
}

/// Where an agent moves in a turn.
#[derive(Debug, Copy, Clone, PartialEq, Eq, Structural)]
pub enum MovementDecision {
    Stay,
    MoveTo(Position),
}

/// The main action of an agent in a turn.
#[derive(Debug, PartialEq, Eq)]
pub enum ActionDecision {
    Wait,
    Attack { target: AgentId },
    Defend,
    UseSkill { skill: SkillName, target: SkillTarget },
    CaptureOrReinforceNode { node_id: NodeId },
}

/// What a skill is aimed at.
#[derive(Debug, PartialEq, Eq)]
pub enum SkillTarget {
    Agent(AgentId),
    Position(Position),
    Node(NodeId),
    NoTarget,
}

impl Clone for SkillTarget {
    fn clone(&self) -> (r: Self)
        ensures
            r == *self,
    {
        match self {
            SkillTarget::Agent(a) => SkillTarget::Agent(a.clone()),
            SkillTarget::Position(p) => SkillTarget::Position(*p),
            SkillTarget::Node(n) => SkillTarget::Node(n.clone()),
            SkillTarget::NoTarget => SkillTarget::NoTarget,
        }
    }
}

impl Clone for ActionDecision {
    fn clone(&self) -> (r: Self)
        ensures
            r == *self,
    {
        match self {
            ActionDecision::Wait => ActionDecision::Wait,
            ActionDecision::Attack { target } => ActionDecision::Attack { target: target.clone() },
            ActionDecision::Defend => ActionDecision::Defend,
            ActionDecision::UseSkill { skill, target } => ActionDecision::UseSkill { skill: *skill, target: target.clone() },
            ActionDecision::CaptureOrReinforceNode { node_id } => ActionDecision::CaptureOrReinforceNode { node_id: node_id.clone() },
        }
    }
}

impl Clone for AgentDecision {
    fn clone(&self) -> (r: Self)
        ensures
            r == *self,
    {
        let intent = match &self.intent {
            Some(s) => Some(s.clone()),
            None => None,
        };
        AgentDecision { intent, movement: self.movement, action: self.action.clone() }
    }
}

} // verus!
