//! Agent roles and the agent slots of a room.

use vstd::prelude::*;

use crate::domain::ids::{PlayerId, SlotId, TeamId};

verus! {

/// The role an agent plays in its team.
#[derive(Debug, Clone, Copy, PartialEq, Eq, Hash, Structural)]
pub enum RoleName {
    Vanguard,
    Striker,
    Medic,
    Guardian,
    Scout,
    Engineer,
}

/// The roles in the order in which a room lays out its slots.
pub open spec fn spec_all_roles() -> Seq<RoleName> {
    seq![
        RoleName::Vanguard,
        RoleName::Striker,
        RoleName::Medic,
        RoleName::Guardian,
        RoleName::Scout,
        RoleName::Engineer,
    ]
}

/// The identifier fragment of a role, as it appears in slot identifiers.
pub open spec fn spec_role_slug(role: RoleName) -> Seq<char> {
    match role {
        RoleName::Vanguard => "vanguard"@,
        RoleName::Striker => "striker"@,
        RoleName::Medic => "medic"@,
        RoleName::Guardian => "guardian"@,
        RoleName::Scout => "scout"@,
        RoleName::Engineer => "engineer"@,
    }
}

/// The prompt a slot of this role gets when it is locked without a draft.
pub open spec fn spec_default_prompt(role: RoleName) -> Seq<char> {
    match role {
        RoleName::Vanguard => "Advance to the nearest contested node, absorb damage for the team and hold the node once it is reached."@,
        RoleName::Striker => "Stay at range, attack the weakest enemy in reach and fall back when badly hurt."@,
        RoleName::Medic => "Stay behind allies, heal the most injured ally in range and avoid the front line."@,
        RoleName::Guardian => "Defend the node the team controls, protect nearby allies and hold position when enemies approach."@,
        RoleName::Scout => "Scout the flanks, mark visible enemies and pressure undefended nodes."@,
        RoleName::Engineer => "Capture and reinforce the closest node the team does not control and wait when none is reachable."@,
    }
}

impl RoleName {
    /// All roles, in slot order.
    pub const ALL: [RoleName; 6] = [
        RoleName::Vanguard,
        RoleName::Striker,
        RoleName::Medic,
        RoleName::Guardian,
        RoleName::Scout,
        RoleName::Engineer,
    ];

    /// The role at position `index` of the slot order.
    pub fn at(index: usize) -> (r: RoleName)
        requires
            index < 6,
        ensures
            r == spec_all_roles()[index as int],
    {
        match index {
            0 => RoleName::Vanguard,
            1 => RoleName::Striker,
            2 => RoleName::Medic,
            3 => RoleName::Guardian,
            4 => RoleName::Scout,
            _ => RoleName::Engineer,
        }
    }

    pub fn as_slug(self) -> (r: &'static str)
        ensures
            r@ == spec_role_slug(self),
    {
        match self {
            RoleName::Vanguard => "vanguard",
            RoleName::Striker => "striker",
            RoleName::Medic => "medic",
            RoleName::Guardian => "guardian",
            RoleName::Scout => "scout",
            RoleName::Engineer => "engineer",
        }
    }

    pub fn default_prompt(self) -> (r: &'static str)
        ensures
            r@ == spec_default_prompt(self),
    {
        match self {
            RoleName::Vanguard => "Advance to the nearest contested node, absorb damage for the team and hold the node once it is reached.",
            RoleName::Striker => "Stay at range, attack the weakest enemy in reach and fall back when badly hurt.",
            RoleName::Medic => "Stay behind allies, heal the most injured ally in range and avoid the front line.",
            RoleName::Guardian => "Defend the node the team controls, protect nearby allies and hold position when enemies approach.",
            RoleName::Scout => "Scout the flanks, mark visible enemies and pressure undefended nodes.",
            RoleName::Engineer => "Capture and reinforce the closest node the team does not control and wait when none is reachable.",
        }
    }
}

/// An agent slot: one role of one team, which at most one player claims.
#[derive(Debug, PartialEq, Eq)]
pub struct AgentSlot {
    pub id: SlotId,
    pub team_id: TeamId,
    pub role: RoleName,
    pub player_id: Option<PlayerId>,
    pub prompt_draft: Option<String>,
    pub locked_prompt: Option<String>,
}

impl AgentSlot {
    pub fn new(id: SlotId, team_id: TeamId, role: RoleName) -> (r: Self)
        ensures
            r == (AgentSlot {
                id,
                team_id,
                role,
                player_id: None,
                prompt_draft: None,
                locked_prompt: None,
            }),
    {
        Self { id, team_id, role, player_id: None, prompt_draft: None, locked_prompt: None }
    }
}

/// A copy of an optional player identifier.
pub(crate) fn clone_opt_player(o: &Option<PlayerId>) -> (r: Option<PlayerId>)
    ensures
        r == *o,
{
    match o {
        Some(p) => Some(p.clone()),
        None => None,
    }
}

/// A copy of an optional string.
pub(crate) fn clone_opt_string(o: &Option<String>) -> (r: Option<String>)
    ensures
        r == *o,
{
    match o {
        Some(s) => Some(s.clone()),
        None => None,
    }
}

impl Clone for AgentSlot {
    fn clone(&self) -> (r: Self)
        ensures
            r == *self,
    {
        AgentSlot {
            id: self.id.clone(),
            team_id: self.team_id.clone(),
            role: self.role,
            player_id: clone_opt_player(&self.player_id),
            prompt_draft: clone_opt_string(&self.prompt_draft),
            locked_prompt: clone_opt_string(&self.locked_prompt),
        }
    }
}

} // verus!
