//! In-match agents and the statistics of their roles.

use std::collections::HashMap;

use vstd::prelude::*;

use crate::domain::action::SkillName;
use crate::domain::ids::{AgentId, TeamId};
use crate::domain::map::Position;
use crate::domain::slot::RoleName;

verus! {

/// Whether an agent acts this turn or waits to respawn.
#[derive(Debug, Clone, Copy, PartialEq, Eq, Hash, Structural)]
pub enum AgentStatus {
    Active,
    Downed { turns_remaining_before_respawn: u32 },
}

/// The statistics every agent of a role starts with.
#[derive(Debug, Clone, Copy, PartialEq, Eq, Structural)]
pub struct RoleStats {
    pub hp: i32,
    pub movement: u32,
    pub attack_range: u32,
    pub attack_damage: i32,
}

/// The statistics of each role.
pub open spec fn spec_role_stats(role: RoleName) -> RoleStats {
    match role {
        RoleName::Vanguard => RoleStats { hp: 14, movement: 2, attack_range: 1, attack_damage: 2 },
        RoleName::Striker => RoleStats { hp: 9, movement: 3, attack_range: 3, attack_damage: 3 },
        RoleName::Medic => RoleStats { hp: 8, movement: 3, attack_range: 2, attack_damage: 1 },
        RoleName::Guardian => RoleStats { hp: 12, movement: 2, attack_range: 2, attack_damage: 2 },
        RoleName::Scout => RoleStats { hp: 8, movement: 4, attack_range: 2, attack_damage: 1 },
        RoleName::Engineer => RoleStats { hp: 10, movement: 2, attack_range: 3, attack_damage: 2 },
    }
}

impl RoleStats {
    pub fn for_role(role: RoleName) -> (r: Self)
        ensures
            r == spec_role_stats(role),
    {
        match role {
            RoleName::Vanguard => RoleStats { hp: 14, movement: 2, attack_range: 1, attack_damage: 2 },
            RoleName::Striker => RoleStats { hp: 9, movement: 3, attack_range: 3, attack_damage: 3 },
            RoleName::Medic => RoleStats { hp: 8, movement: 3, attack_range: 2, attack_damage: 1 },
            RoleName::Guardian => RoleStats { hp: 12, movement: 2, attack_range: 2, attack_damage: 2 },
            RoleName::Scout => RoleStats { hp: 8, movement: 4, attack_range: 2, attack_damage: 1 },
            RoleName::Engineer => RoleStats { hp: 10, movement: 2, attack_range: 3, attack_damage: 2 },
        }
    }
}

impl RoleName {
    pub fn stats(self) -> (r: RoleStats)
        ensures
            r == spec_role_stats(self),
    {
        RoleStats::for_role(self)
    }
}

/// An agent of a running match.
#[derive(Debug, PartialEq, Eq)]
pub struct GameAgent {
    pub id: AgentId,
    pub team_id: TeamId,
    pub role: RoleName,
    pub display_name: Option<String>,
    pub hp: i32,
    pub max_hp: i32,
    pub position: Position,
    pub status: AgentStatus,
    pub marked: bool,
    pub shield: i32,
    pub cooldowns: HashMap<SkillName, u32>,
}

impl GameAgent {
    /// An active agent at full health, unmarked, unshielded and with no cooldown.
    pub fn new(
        id: AgentId,
        team_id: TeamId,
        role: RoleName,
        display_name: Option<String>,
        position: Position,
    ) -> (r: Self)
        ensures
            r.id == id,
            r.team_id == team_id,
            r.role == role,
            r.display_name == display_name,
            r.hp == spec_role_stats(role).hp,
            r.max_hp == spec_role_stats(role).hp,
            r.position == position,
            r.status == AgentStatus::Active,
            !r.marked,
            r.shield == 0,
            r.cooldowns@ == Map::<SkillName, u32>::empty(),
    {
        let stats = role.stats();
        Self {
            id,
            team_id,
            role,
            display_name,
            hp: stats.hp,
            max_hp: stats.hp,
            position,
            status: AgentStatus::Active,
            marked: false,
            shield: 0,
            cooldowns: HashMap::new(),
        }
    }
}

} // verus!
