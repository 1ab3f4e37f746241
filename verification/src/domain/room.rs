//! Room aggregate and room-level domain behavior.
//!
//! A room is the container players join. Its slots (one per role and team) are
//! claimed by players, who write prompt drafts for them while the room is open.
//! Locking the room snapshots the prompts; a locked room can be reopened or
//! started, and a running room finishes.

use vstd::prelude::*;

use crate::domain::error::DomainError;
use crate::domain::ids::{MapId, MatchId, PlayerId, RoomCode, RoomId, SlotId, TeamId};
use crate::domain::player::{Player, Timestamp};
use crate::domain::slot::{
    clone_opt_player, clone_opt_string, spec_all_roles, spec_default_prompt, spec_role_slug,
    AgentSlot, RoleName,
};
use crate::domain::team::{Team, TeamSide};
use crate::seqs::{first_index, lemma_first_index, lemma_first_index_is, lemma_first_index_none, lemma_first_index_update};

verus! {

/// The lifecycle status of a room.
#[derive(Debug, Clone, Copy, PartialEq, Eq, Hash, Structural)]
pub enum RoomStatus {
    Open,
    Locked,
    Running,
    Finished,
    Closed,
}

/// The game a room plays.
#[derive(Debug, Clone, Copy, PartialEq, Eq, Hash, Structural)]
pub enum GameMode {
    PromptOpsArena,
}

/// The settings a room starts its match with.
#[derive(Debug, PartialEq, Eq)]
pub struct RoomConfig {
    pub mode: GameMode,
    pub map_id: MapId,
    pub max_turns: u32,
}

/// The map a room plays on unless configured otherwise.
pub open spec fn spec_default_map_id() -> Seq<char> {
    "default-15x9"@
}

/// The number of turns a match lasts unless configured otherwise.
pub const DEFAULT_MAX_TURNS: u32 = 8;

/// Whether `c` is the default room configuration.
pub open spec fn is_default_room_config(c: RoomConfig) -> bool {
    &&& c.mode == GameMode::PromptOpsArena
    &&& c.map_id@ == spec_default_map_id()
    &&& c.max_turns == DEFAULT_MAX_TURNS
}

impl Default for RoomConfig {
    fn default() -> (r: Self)
        ensures
            is_default_room_config(r),
    {
        Self {
            mode: GameMode::PromptOpsArena,
            map_id: MapId::new("default-15x9"),
            max_turns: DEFAULT_MAX_TURNS,
        }
    }
}

impl Clone for RoomConfig {
    fn clone(&self) -> (r: Self)
        ensures
            r == *self,
    {
        RoomConfig { mode: self.mode, map_id: self.map_id.clone(), max_turns: self.max_turns }
    }
}

/// A room: players, teams, agent slots and, once started, its match.
#[derive(Debug, PartialEq, Eq)]
pub struct Room {
    pub id: RoomId,
    pub code: RoomCode,
    pub status: RoomStatus,
    pub config: RoomConfig,
    pub players: Vec<Player>,
    pub teams: Vec<Team>,
    pub slots: Vec<AgentSlot>,
    pub match_id: Option<MatchId>,
    pub version: u64,
    pub created_at: Timestamp,
    pub updated_at: Timestamp,
}

/// The value of a room, with its collections as sequences.
pub struct RoomView {
    pub id: RoomId,
    pub code: RoomCode,
    pub status: RoomStatus,
    pub config: RoomConfig,
    pub players: Seq<Player>,
    pub teams: Seq<Team>,
    pub slots: Seq<AgentSlot>,
    pub match_id: Option<MatchId>,
    pub version: u64,
    pub created_at: Timestamp,
    pub updated_at: Timestamp,
}

impl View for Room {
    type V = RoomView;

    open spec fn view(&self) -> RoomView {
        RoomView {
            id: self.id,
            code: self.code,
            status: self.status,
            config: self.config,
            players: self.players@,
            teams: self.teams@,
            slots: self.slots@,
            match_id: self.match_id,
            version: self.version,
            created_at: self.created_at,
            updated_at: self.updated_at,
        }
    }
}

/// A copy of an optional match identifier.
pub(crate) fn clone_opt_match(o: &Option<MatchId>) -> (r: Option<MatchId>)
    ensures
        r == *o,
{
    match o {
        Some(m) => Some(m.clone()),
        None => None,
    }
}

impl Clone for Room {
    fn clone(&self) -> (r: Self)
        ensures
            r@ == self@,
    {
        let players = self.players.clone();
        let teams = self.teams.clone();
        let slots = self.slots.clone();
        assert(players@ =~= self.players@);
        assert(teams@ =~= self.teams@);
        assert(slots@ =~= self.slots@);
        Room {
            id: self.id.clone(),
            code: self.code.clone(),
            status: self.status,
            config: self.config.clone(),
            players,
            teams,
            slots,
            match_id: clone_opt_match(&self.match_id),
            version: self.version,
            created_at: self.created_at,
            updated_at: self.updated_at,
        }
    }
}

// ---------------------------------------------------------------------------
// The model of a room's rules.
// ---------------------------------------------------------------------------

/// Matches a slot by its identifier.
pub open spec fn slot_with_id(id: Seq<char>) -> spec_fn(AgentSlot) -> bool {
    |s: AgentSlot| s.id@ == id
}

/// Matches a slot claimed by the given player.
pub open spec fn slot_owned_by(player: Seq<char>) -> spec_fn(AgentSlot) -> bool {
    |s: AgentSlot| s.player_id is Some && s.player_id->0@ == player
}

/// The index of the first slot with the given identifier, or -1.
pub open spec fn slot_index(slots: Seq<AgentSlot>, id: Seq<char>) -> int {
    first_index(slots, slot_with_id(id))
}

/// The index of the first slot the given player claimed, or -1.
pub open spec fn owned_slot_index(slots: Seq<AgentSlot>, player: Seq<char>) -> int {
    first_index(slots, slot_owned_by(player))
}

/// No player holds two slots.
pub open spec fn one_slot_per_player(slots: Seq<AgentSlot>) -> bool {
    forall|i: int, j: int|
        0 <= i < slots.len() && 0 <= j < slots.len() && i != j && (#[trigger] slots[i]).player_id is Some
            && (#[trigger] slots[j]).player_id is Some ==> slots[i].player_id->0@ != slots[j].player_id->0@
}

/// The status changes the room lifecycle allows.
pub open spec fn valid_transition(from: RoomStatus, to: RoomStatus) -> bool {
    ||| from == RoomStatus::Open && to == RoomStatus::Locked
    ||| from == RoomStatus::Locked && to == RoomStatus::Open
    ||| from == RoomStatus::Locked && to == RoomStatus::Running
    ||| from == RoomStatus::Running && to == RoomStatus::Finished
}

/// `new` is `old` with the version one higher and the given slots.
pub open spec fn with_slots(old: RoomView, new: RoomView, slots: Seq<AgentSlot>) -> bool {
    &&& new == RoomView { slots, version: (old.version + 1) as u64, ..old }
}

/// What claiming `slot_id` for `player_id` does to `old`.
pub open spec fn claim_slot_result(
    old: RoomView,
    new: RoomView,
    player_id: PlayerId,
    slot_id: SlotId,
    r: Result<(), DomainError>,
) -> bool {
    let owned = owned_slot_index(old.slots, player_id@);
    let j = slot_index(old.slots, slot_id@);
    if old.status != RoomStatus::Open {
        &&& r == Err::<(), DomainError>(DomainError::RoomStatusDoesNotAllowAction { status: old.status, action: "claim slot" })
        &&& new == old
    } else if owned >= 0 {
        &&& r == Err::<(), DomainError>(DomainError::PlayerAlreadyClaimedSlot { player_id, slot_id: old.slots[owned].id })
        &&& new == old
    } else if j < 0 {
        &&& r == Err::<(), DomainError>(DomainError::SlotNotFound { slot_id })
        &&& new == old
    } else if old.slots[j].player_id is Some {
        &&& r == Err::<(), DomainError>(DomainError::SlotAlreadyClaimed { slot_id })
        &&& new == old
    } else {
        &&& r is Ok
        &&& with_slots(old, new, old.slots.update(j, AgentSlot { player_id: Some(player_id), ..old.slots[j] }))
    }
}

/// Whether claiming `slot_id` for `player_id` succeeds: the room is open, the player
/// holds no slot, and the slot exists and is free.
pub open spec fn claim_allowed(old: RoomView, player_id: PlayerId, slot_id: SlotId) -> bool {
    let j = slot_index(old.slots, slot_id@);
    &&& old.status == RoomStatus::Open
    &&& owned_slot_index(old.slots, player_id@) < 0
    &&& j >= 0
    &&& old.slots[j].player_id is None
}

/// The error of a slot action by `player_id` on `slot_id` that needs an open room and
/// the player's ownership of the slot, if there is one.
pub open spec fn owner_action_error(
    old: RoomView,
    player_id: PlayerId,
    slot_id: SlotId,
    action: &'static str,
) -> Option<DomainError> {
    let j = slot_index(old.slots, slot_id@);
    if old.status != RoomStatus::Open {
        Some(DomainError::RoomStatusDoesNotAllowAction { status: old.status, action })
    } else if j < 0 {
        Some(DomainError::SlotNotFound { slot_id })
    } else if !(old.slots[j].player_id is Some && old.slots[j].player_id->0@ == player_id@) {
        Some(DomainError::SlotNotOwnedByPlayer { slot_id, player_id })
    } else {
        None
    }
}

/// What releasing `slot_id` by `player_id` does to `old`.
pub open spec fn release_slot_result(
    old: RoomView,
    new: RoomView,
    player_id: PlayerId,
    slot_id: SlotId,
    r: Result<(), DomainError>,
) -> bool {
    let j = slot_index(old.slots, slot_id@);
    match owner_action_error(old, player_id, slot_id, "release slot") {
        Some(e) => r == Err::<(), DomainError>(e) && new == old,
        None => {
            &&& r is Ok
            &&& with_slots(old, new, old.slots.update(j, AgentSlot { player_id: None, prompt_draft: None, ..old.slots[j] }))
        },
    }
}

/// What updating the prompt draft of `slot_id` by `player_id` does to `old`.
pub open spec fn update_prompt_result(
    old: RoomView,
    new: RoomView,
    player_id: PlayerId,
    slot_id: SlotId,
    prompt: Seq<char>,
    r: Result<(), DomainError>,
) -> bool {
    let j = slot_index(old.slots, slot_id@);
    match owner_action_error(old, player_id, slot_id, "update prompt") {
        Some(e) => r == Err::<(), DomainError>(e) && new == old,
        None => {
            &&& r is Ok
            &&& new == RoomView { slots: new.slots, version: (old.version + 1) as u64, ..old }
            &&& new.slots.len() == old.slots.len()
            &&& forall|i: int| 0 <= i < old.slots.len() && i != j ==> new.slots[i] == old.slots[i]
            &&& new.slots[j] == AgentSlot { prompt_draft: new.slots[j].prompt_draft, ..old.slots[j] }
            &&& new.slots[j].prompt_draft is Some
            &&& new.slots[j].prompt_draft->0@ == prompt
        },
    }
}

/// `new` is `old` with its prompt snapshot taken: the draft, or `fallback` without one.
pub open spec fn locked_slot(old: AgentSlot, new: AgentSlot, fallback: Seq<char>) -> bool {
    &&& new == AgentSlot { locked_prompt: new.locked_prompt, ..old }
    &&& new.locked_prompt is Some
    &&& new.locked_prompt->0@ == match old.prompt_draft {
        Some(d) => d@,
        None => fallback,
    }
}

/// The result of a status change from `from` to `to`.
pub open spec fn transition_check(from: RoomStatus, to: RoomStatus) -> Result<(), DomainError> {
    if valid_transition(from, to) {
        Ok(())
    } else {
        Err(DomainError::InvalidRoomStatusTransition { from, to })
    }
}

/// What locking does to `old`; `fallback(i)` is the prompt slot `i` gets without a draft.
pub open spec fn lock_result_with(
    old: RoomView,
    new: RoomView,
    fallback: spec_fn(int) -> Seq<char>,
    r: Result<(), DomainError>,
) -> bool {
    match transition_check(old.status, RoomStatus::Locked) {
        Err(e) => r == Err::<(), DomainError>(e) && new == old,
        Ok(()) => {
            &&& r is Ok
            &&& new == RoomView {
                slots: new.slots,
                status: RoomStatus::Locked,
                version: (old.version + 1) as u64,
                ..old
            }
            &&& new.slots.len() == old.slots.len()
            &&& forall|i: int|
                0 <= i < old.slots.len() ==> locked_slot(old.slots[i], #[trigger] new.slots[i], fallback(i))
        },
    }
}

/// What locking with one fallback prompt does to `old`.
pub open spec fn lock_result(old: RoomView, new: RoomView, fallback: Seq<char>, r: Result<(), DomainError>) -> bool {
    lock_result_with(old, new, |i: int| fallback, r)
}

/// What locking with the roles' default prompts does to `old`.
pub open spec fn lock_with_role_defaults_result(old: RoomView, new: RoomView, r: Result<(), DomainError>) -> bool {
    lock_result_with(old, new, |i: int| spec_default_prompt(old.slots[i].role), r)
}

/// What a plain status change to `to` does to `old`.
pub open spec fn status_change_result(old: RoomView, new: RoomView, to: RoomStatus, r: Result<(), DomainError>) -> bool {
    match transition_check(old.status, to) {
        Err(e) => r == Err::<(), DomainError>(e) && new == old,
        Ok(()) => r is Ok && new == RoomView { status: to, version: (old.version + 1) as u64, ..old },
    }
}

/// What starting the match `match_id` does to `old`.
pub open spec fn mark_running_result(old: RoomView, new: RoomView, match_id: MatchId, r: Result<(), DomainError>) -> bool {
    match transition_check(old.status, RoomStatus::Running) {
        Err(e) => r == Err::<(), DomainError>(e) && new == old,
        Ok(()) => {
            &&& r is Ok
            &&& new == RoomView {
                status: RoomStatus::Running,
                match_id: Some(match_id),
                version: (old.version + 1) as u64,
                ..old
            }
        },
    }
}

// ---------------------------------------------------------------------------
// The shape of a new room.
// ---------------------------------------------------------------------------

/// The identifier fragment of a team side.
pub open spec fn spec_side_slug(side: TeamSide) -> Seq<char> {
    match side {
        TeamSide::A => "a"@,
        TeamSide::B => "b"@,
    }
}

/// The identifier of the slot of `role` in the team on `side`.
pub open spec fn spec_default_slot_id(side: TeamSide, role: RoleName) -> Seq<char> {
    "slot_"@ + spec_side_slug(side) + "_"@ + spec_role_slug(role)
}

/// Whether `t` is the default team of `side`.
pub open spec fn is_default_team(t: Team, side: TeamSide) -> bool {
    &&& t.side == side
    &&& t.id@ == match side {
        TeamSide::A => "team_a"@,
        TeamSide::B => "team_b"@,
    }
    &&& t.name@ == match side {
        TeamSide::A => "Team A"@,
        TeamSide::B => "Team B"@,
    }
}

/// Whether `s` is the unclaimed slot of `role` in `team`.
pub open spec fn is_default_slot(s: AgentSlot, team: Team, role: RoleName) -> bool {
    &&& s.id@ == spec_default_slot_id(team.side, role)
    &&& s.team_id == team.id
    &&& s.role == role
    &&& s.player_id is None
    &&& s.prompt_draft is None
    &&& s.locked_prompt is None
}

/// Whether `r` is a new default room: two teams and one free slot per role and team.
pub open spec fn is_new_default_room(r: RoomView, id: RoomId, code: RoomCode, timestamp: Timestamp) -> bool {
    &&& r.id == id
    &&& r.code == code
    &&& r.status == RoomStatus::Open
    &&& is_default_room_config(r.config)
    &&& r.players.len() == 0
    &&& r.teams.len() == 2
    &&& is_default_team(r.teams[0], TeamSide::A)
    &&& is_default_team(r.teams[1], TeamSide::B)
    &&& r.slots.len() == 12
    &&& forall|t: int, k: int|
        0 <= t < 2 && 0 <= k < 6 ==> is_default_slot(#[trigger] r.slots[t * 6 + k], r.teams[t], spec_all_roles()[k])
    &&& r.match_id is None
    &&& r.version == 1
    &&& r.created_at == timestamp
    &&& r.updated_at == timestamp
}

fn side_slug(side: TeamSide) -> (r: &'static str)
    ensures
        r@ == spec_side_slug(side),
{
    match side {
        TeamSide::A => "a",
        TeamSide::B => "b",
    }
}

/// The first slot with the given identifier.
fn find_slot(slots: &Vec<AgentSlot>, slot_id: &SlotId) -> (r: Option<usize>)
    ensures
        match r {
            Some(i) => i < slots@.len() && i == slot_index(slots@, slot_id@),
            None => slot_index(slots@, slot_id@) == -1,
        },
{
    let mut i: usize = 0;
    while i < slots.len()
        invariant
            i <= slots.len(),
            forall|k: int| 0 <= k < i ==> !slot_with_id(slot_id@)(#[trigger] slots@[k]),
        decreases slots.len() - i,
    {
        if slots[i].id == *slot_id {
            proof {
                lemma_first_index_is(slots@, slot_with_id(slot_id@), i as int);
            }
            return Some(i);
        }
        i = i + 1;
    }
    proof {
        lemma_first_index_none(slots@, slot_with_id(slot_id@));
    }
    None
}

/// Whether the optional player is the given one.
pub(crate) fn is_player(o: &Option<PlayerId>, player_id: &PlayerId) -> (r: bool)
    ensures
        r == (o is Some && o->0@ == player_id@),
{
    match o {
        Some(p) => *p == *player_id,
        None => false,
    }
}

/// The first slot the given player claimed.
fn find_owned_slot(slots: &Vec<AgentSlot>, player_id: &PlayerId) -> (r: Option<usize>)
    ensures
        match r {
            Some(i) => i < slots@.len() && i == owned_slot_index(slots@, player_id@),
            None => owned_slot_index(slots@, player_id@) == -1,
        },
{
    let mut i: usize = 0;
    while i < slots.len()
        invariant
            i <= slots.len(),
            forall|k: int| 0 <= k < i ==> !slot_owned_by(player_id@)(#[trigger] slots@[k]),
        decreases slots.len() - i,
    {
        if is_player(&slots[i].player_id, player_id) {
            proof {
                lemma_first_index_is(slots@, slot_owned_by(player_id@), i as int);
            }
            return Some(i);
        }
        i = i + 1;
    }
    proof {
        lemma_first_index_none(slots@, slot_owned_by(player_id@));
    }
    None
}

impl Room {
    /// A new open room with two teams and one free slot per role and team.
    #[must_use]
    pub fn new_default(id: RoomId, code: RoomCode, timestamp: Timestamp) -> (r: Self)
        ensures
            is_new_default_room(r@, id, code, timestamp),
            one_slot_per_player(r.slots@),
    {
        let mut teams: Vec<Team> = Vec::new();
        teams.push(Team::new(TeamId::new("team_a"), String::from_str("Team A"), TeamSide::A));
        teams.push(Team::new(TeamId::new("team_b"), String::from_str("Team B"), TeamSide::B));
        let mut slots: Vec<AgentSlot> = Vec::new();
        let mut t: usize = 0;
        while t < 2
            invariant
                t <= 2,
                teams@.len() == 2,
                is_default_team(teams@[0], TeamSide::A),
                is_default_team(teams@[1], TeamSide::B),
                slots@.len() == t * 6,
                forall|tt: int, k: int|
                    0 <= tt < t && 0 <= k < 6 ==> is_default_slot(#[trigger] slots@[tt * 6 + k], teams@[tt], spec_all_roles()[k]),
            decreases 2 - t,
        {
            let side_text = side_slug(teams[t].side);
            let mut k: usize = 0;
            while k < 6
                invariant
                    t < 2,
                    k <= 6,
                    teams@.len() == 2,
                    is_default_team(teams@[0], TeamSide::A),
                    is_default_team(teams@[1], TeamSide::B),
                    side_text@ == spec_side_slug(teams@[t as int].side),
                    slots@.len() == t * 6 + k,
                    forall|tt: int, kk: int|
                        0 <= tt < t && 0 <= kk < 6 ==> is_default_slot(#[trigger] slots@[tt * 6 + kk], teams@[tt], spec_all_roles()[kk]),
                    forall|kk: int|
                        0 <= kk < k ==> is_default_slot(#[trigger] slots@[t * 6 + kk], teams@[t as int], spec_all_roles()[kk]),
                decreases 6 - k,
            {
                let role = RoleName::at(k);
                let mut slot_text = String::from_str("slot_");
                slot_text.append(side_text);
                slot_text.append("_");
                slot_text.append(role.as_slug());
                let slot = AgentSlot::new(SlotId::new(slot_text.as_str()), teams[t].id.clone(), role);
                let ghost before = slots@;
                slots.push(slot);
                proof {
                    assert forall|tt: int, kk: int|
                        0 <= tt < t && 0 <= kk < 6 implies is_default_slot(#[trigger] slots@[tt * 6 + kk], teams@[tt], spec_all_roles()[kk]) by {
                        assert(slots@[tt * 6 + kk] == before[tt * 6 + kk]);
                    }
                    assert forall|kk: int|
                        0 <= kk < k + 1 implies is_default_slot(#[trigger] slots@[t * 6 + kk], teams@[t as int], spec_all_roles()[kk]) by {
                        if kk < k {
                            assert(slots@[t * 6 + kk] == before[t * 6 + kk]);
                        }
                    }
                }
                k = k + 1;
            }
            t = t + 1;
        }
        proof {
            assert forall|i: int| 0 <= i < slots@.len() implies (#[trigger] slots@[i]).player_id is None by {
                let tt = i / 6;
                let kk = i % 6;
                assert(i == tt * 6 + kk);
                assert(is_default_slot(slots@[tt * 6 + kk], teams@[tt], spec_all_roles()[kk]));
            }
        }
        Self {
            id,
            code,
            status: RoomStatus::Open,
            config: RoomConfig::default(),
            players: Vec::new(),
            teams,
            slots,
            match_id: None,
            version: 1,
            created_at: timestamp,
            updated_at: timestamp,
        }
    }

    /// Claims an empty slot for a player.
    ///
    /// # Errors
    ///
    /// Returns a domain error when the room is not open, the player already owns a slot,
    /// or the slot is missing or occupied.
    pub fn claim_slot(&mut self, player_id: &PlayerId, slot_id: &SlotId) -> (r: Result<(), DomainError>)
        requires
            claim_allowed(old(self)@, *player_id, *slot_id) ==> old(self).version < u64::MAX,
        ensures
            claim_slot_result(old(self)@, final(self)@, *player_id, *slot_id, r),
            one_slot_per_player(old(self).slots@) ==> one_slot_per_player(final(self).slots@),
    {
        self.require_status(RoomStatus::Open, "claim slot")?;
        if let Some(k) = find_owned_slot(&self.slots, player_id) {
            return Err(DomainError::PlayerAlreadyClaimedSlot {
                player_id: player_id.clone(),
                slot_id: self.slots[k].id.clone(),
            });
        }
        let j = self.slot_mut(slot_id)?;
        if self.slots[j].player_id.is_some() {
            return Err(DomainError::SlotAlreadyClaimed { slot_id: slot_id.clone() });
        }
        let ghost old_slots = self.slots@;
        let mut slot = self.slots[j].clone();
        slot.player_id = Some(player_id.clone());
        self.slots.set(j, slot);
        self.bump_version();
        proof {
            lemma_first_index(old_slots, slot_owned_by(player_id@));
            let new_slots = self.slots@;
            assert forall|a: int, b: int|
                0 <= a < new_slots.len() && 0 <= b < new_slots.len() && a != b && (#[trigger] new_slots[a]).player_id is Some
                    && (#[trigger] new_slots[b]).player_id is Some && one_slot_per_player(old_slots)
                implies new_slots[a].player_id->0@ != new_slots[b].player_id->0@ by {
                if a == j {
                    assert(!slot_owned_by(player_id@)(old_slots[b]));
                } else if b == j {
                    assert(!slot_owned_by(player_id@)(old_slots[a]));
                } else {
                    assert(new_slots[a] == old_slots[a] && new_slots[b] == old_slots[b]);
                }
            }
        }
        Ok(())
    }

    /// Releases a slot if the player owns it.
    ///
    /// # Errors
    ///
    /// Returns a domain error when the room is not open, the slot is missing, or ownership
    /// does not match.
    pub fn release_slot(&mut self, player_id: &PlayerId, slot_id: &SlotId) -> (r: Result<(), DomainError>)
        requires
            owner_action_error(old(self)@, *player_id, *slot_id, "release slot") is None ==> old(self).version < u64::MAX,
        ensures
            release_slot_result(old(self)@, final(self)@, *player_id, *slot_id, r),
            one_slot_per_player(old(self).slots@) ==> one_slot_per_player(final(self).slots@),
    {
        let j = self.owned_slot(player_id, slot_id, "release slot")?;
        let ghost old_slots = self.slots@;
        let mut slot = self.slots[j].clone();
        slot.player_id = None;
        slot.prompt_draft = None;
        self.slots.set(j, slot);
        self.bump_version();
        proof {
            let new_slots = self.slots@;
            assert forall|a: int, b: int|
                0 <= a < new_slots.len() && 0 <= b < new_slots.len() && a != b && (#[trigger] new_slots[a]).player_id is Some
                    && (#[trigger] new_slots[b]).player_id is Some && one_slot_per_player(old_slots)
                implies new_slots[a].player_id->0@ != new_slots[b].player_id->0@ by {
                assert(new_slots[a] == old_slots[a] && new_slots[b] == old_slots[b]);
            }
        }
        Ok(())
    }

    /// Updates a prompt draft for a slot owner.
    ///
    /// # Errors
    ///
    /// Returns a domain error when the room is not open, the slot is missing, or ownership
    /// does not match.
    pub fn update_prompt(&mut self, player_id: &PlayerId, slot_id: &SlotId, prompt: &str) -> (r: Result<(), DomainError>)
        requires
            owner_action_error(old(self)@, *player_id, *slot_id, "update prompt") is None ==> old(self).version < u64::MAX,
        ensures
            update_prompt_result(old(self)@, final(self)@, *player_id, *slot_id, prompt@, r),
            one_slot_per_player(old(self).slots@) ==> one_slot_per_player(final(self).slots@),
    {
        let j = self.owned_slot(player_id, slot_id, "update prompt")?;
        let ghost old_slots = self.slots@;
        let mut slot = self.slots[j].clone();
        slot.prompt_draft = Some(String::from_str(prompt));
        self.slots.set(j, slot);
        self.bump_version();
        proof {
            let new_slots = self.slots@;
            assert forall|a: int, b: int|
                0 <= a < new_slots.len() && 0 <= b < new_slots.len() && a != b && (#[trigger] new_slots[a]).player_id is Some
                    && (#[trigger] new_slots[b]).player_id is Some && one_slot_per_player(old_slots)
                implies new_slots[a].player_id->0@ != new_slots[b].player_id->0@ by {
                assert(new_slots[a].player_id == old_slots[a].player_id);
                assert(new_slots[b].player_id == old_slots[b].player_id);
            }
        }
        Ok(())
    }

    /// Locks room input and snapshots prompt drafts, using `fallback_prompt` for slots
    /// without a draft.
    ///
    /// # Errors
    ///
    /// Returns a domain error when the room is not open.
    pub fn lock(&mut self, fallback_prompt: &str) -> (r: Result<(), DomainError>)
        requires
            valid_transition(old(self).status, RoomStatus::Locked) ==> old(self).version < u64::MAX,
        ensures
            lock_result(old(self)@, final(self)@, fallback_prompt@, r),
    {
        self.require_transition(RoomStatus::Locked)?;
        let ghost old_room = self@;
        let mut i: usize = 0;
        while i < self.slots.len()
            invariant
                i <= self.slots@.len() == old_room.slots.len(),
                self@ == (RoomView { slots: self@.slots, ..old_room }),
                forall|k: int| 0 <= k < i ==> locked_slot(old_room.slots[k], #[trigger] self.slots@[k], fallback_prompt@),
                forall|k: int| i <= k < self.slots@.len() ==> #[trigger] self.slots@[k] == old_room.slots[k],
            decreases old_room.slots.len() - i,
        {
            let mut slot = self.slots[i].clone();
            let prompt = match &slot.prompt_draft {
                Some(d) => d.clone(),
                None => String::from_str(fallback_prompt),
            };
            slot.locked_prompt = Some(prompt);
            self.slots.set(i, slot);
            i = i + 1;
        }
        self.status = RoomStatus::Locked;
        self.bump_version();
        Ok(())
    }

    /// Locks room input using each role's default prompt for empty prompt drafts.
    ///
    /// # Errors
    ///
    /// Returns a domain error when the room is not open.
    pub fn lock_with_role_defaults(&mut self) -> (r: Result<(), DomainError>)
        requires
            valid_transition(old(self).status, RoomStatus::Locked) ==> old(self).version < u64::MAX,
        ensures
            lock_with_role_defaults_result(old(self)@, final(self)@, r),
    {
        self.require_transition(RoomStatus::Locked)?;
        let ghost old_room = self@;
        let mut i: usize = 0;
        while i < self.slots.len()
            invariant
                i <= self.slots@.len() == old_room.slots.len(),
                self@ == (RoomView { slots: self@.slots, ..old_room }),
                forall|k: int|
                    0 <= k < i ==> locked_slot(old_room.slots[k], #[trigger] self.slots@[k], spec_default_prompt(old_room.slots[k].role)),
                forall|k: int| i <= k < self.slots@.len() ==> #[trigger] self.slots@[k] == old_room.slots[k],
            decreases old_room.slots.len() - i,
        {
            let mut slot = self.slots[i].clone();
            let prompt = match &slot.prompt_draft {
                Some(d) => d.clone(),
                None => String::from_str(slot.role.default_prompt()),
            };
            slot.locked_prompt = Some(prompt);
            self.slots.set(i, slot);
            i = i + 1;
        }
        self.status = RoomStatus::Locked;
        self.bump_version();
        Ok(())
    }

    /// Unlocks a locked room.
    ///
    /// # Errors
    ///
    /// Returns a domain error when the room is not locked.
    pub fn unlock(&mut self) -> (r: Result<(), DomainError>)
        requires
            valid_transition(old(self).status, RoomStatus::Open) ==> old(self).version < u64::MAX,
        ensures
            status_change_result(old(self)@, final(self)@, RoomStatus::Open, r),
    {
        self.require_transition(RoomStatus::Open)?;
        self.status = RoomStatus::Open;
        self.bump_version();
        Ok(())
    }

    /// Marks a locked room as running and attaches its child match ID.
    ///
    /// # Errors
    ///
    /// Returns a domain error when the room is not locked.
    pub fn mark_running(&mut self, match_id: MatchId) -> (r: Result<(), DomainError>)
        requires
            valid_transition(old(self).status, RoomStatus::Running) ==> old(self).version < u64::MAX,
        ensures
            mark_running_result(old(self)@, final(self)@, match_id, r),
    {
        self.require_transition(RoomStatus::Running)?;
        self.status = RoomStatus::Running;
        self.match_id = Some(match_id);
        self.bump_version();
        Ok(())
    }

    /// Marks a running room as finished.
    ///
    /// # Errors
    ///
    /// Returns a domain error when the room is not running.
    pub fn mark_finished(&mut self) -> (r: Result<(), DomainError>)
        requires
            valid_transition(old(self).status, RoomStatus::Finished) ==> old(self).version < u64::MAX,
        ensures
            status_change_result(old(self)@, final(self)@, RoomStatus::Finished, r),
    {
        self.require_transition(RoomStatus::Finished)?;
        self.status = RoomStatus::Finished;
        self.bump_version();
        Ok(())
    }

    /// Closes the room, whatever its status.
    pub fn close(&mut self)
        requires
            old(self).version < u64::MAX,
        ensures
            final(self)@ == (RoomView { status: RoomStatus::Closed, version: (old(self).version + 1) as u64, ..old(self)@ }),
    {
        self.status = RoomStatus::Closed;
        self.bump_version();
    }

    /// The index of the slot with the given identifier.
    fn slot_mut(&self, slot_id: &SlotId) -> (r: Result<usize, DomainError>)
        ensures
            match r {
                Ok(i) => i < self.slots@.len() && i == slot_index(self.slots@, slot_id@),
                Err(e) => slot_index(self.slots@, slot_id@) == -1 && e == DomainError::SlotNotFound { slot_id: *slot_id },
            },
    {
        match find_slot(&self.slots, slot_id) {
            Some(i) => Ok(i),
            None => Err(DomainError::SlotNotFound { slot_id: slot_id.clone() }),
        }
    }

    /// The index of `slot_id` when the room is open and the player owns that slot.
    fn owned_slot(&self, player_id: &PlayerId, slot_id: &SlotId, action: &'static str) -> (r: Result<usize, DomainError>)
        ensures
            match r {
                Ok(i) => owner_action_error(self@, *player_id, *slot_id, action) is None && i < self.slots@.len() && i == slot_index(self.slots@, slot_id@),
                Err(e) => owner_action_error(self@, *player_id, *slot_id, action) == Some(e),
            },
    {
        self.require_status(RoomStatus::Open, action)?;
        let j = self.slot_mut(slot_id)?;
        proof {
            lemma_first_index(self.slots@, slot_with_id(slot_id@));
        }
        if !is_player(&self.slots[j].player_id, player_id) {
            return Err(DomainError::SlotNotOwnedByPlayer { slot_id: slot_id.clone(), player_id: player_id.clone() });
        }
        Ok(j)
    }

    fn require_status(&self, status: RoomStatus, action: &'static str) -> (r: Result<(), DomainError>)
        ensures
            r == if self.status == status {
                Ok::<(), DomainError>(())
            } else {
                Err(DomainError::RoomStatusDoesNotAllowAction { status: self.status, action })
            },
    {
        if self.status == status {
            Ok(())
        } else {
            Err(DomainError::RoomStatusDoesNotAllowAction { status: self.status, action })
        }
    }

    fn require_transition(&self, to: RoomStatus) -> (r: Result<(), DomainError>)
        ensures
            r == transition_check(self.status, to),
    {
        let valid = match (self.status, to) {
            (RoomStatus::Open, RoomStatus::Locked) => true,
            (RoomStatus::Locked, RoomStatus::Open) => true,
            (RoomStatus::Locked, RoomStatus::Running) => true,
            (RoomStatus::Running, RoomStatus::Finished) => true,
            _ => false,
        };
        if valid {
            Ok(())
        } else {
            Err(DomainError::InvalidRoomStatusTransition { from: self.status, to })
        }
    }

    fn bump_version(&mut self)
        requires
            old(self).version < u64::MAX,
        ensures
            final(self)@ == (RoomView { version: (old(self).version + 1) as u64, ..old(self)@ }),
    {
        self.version = self.version + 1;
    }
}

// ---------------------------------------------------------------------------
// Laws of the room rules.
// ---------------------------------------------------------------------------

/// Releasing a slot just claimed gives the room back as it was, but for the slot's
/// prompt draft, which is cleared, and the version, which is two higher.
pub proof fn law_release_undoes_claim(
    old: RoomView,
    mid: RoomView,
    new: RoomView,
    player_id: PlayerId,
    slot_id: SlotId,
    claimed: Result<(), DomainError>,
    released: Result<(), DomainError>,
)
    requires
        old.version < u64::MAX - 1,
        claim_slot_result(old, mid, player_id, slot_id, claimed),
        claimed is Ok,
        release_slot_result(mid, new, player_id, slot_id, released),
    ensures
        released is Ok,
        new == (RoomView {
            slots: old.slots.update(
                slot_index(old.slots, slot_id@),
                AgentSlot { prompt_draft: None, ..old.slots[slot_index(old.slots, slot_id@)] },
            ),
            version: (old.version + 2) as u64,
            ..old
        }),
{
    let j = slot_index(old.slots, slot_id@);
    let claimed_slot = AgentSlot { player_id: Some(player_id), ..old.slots[j] };
    lemma_first_index(old.slots, slot_with_id(slot_id@));
    lemma_first_index_update(old.slots, slot_with_id(slot_id@), j, claimed_slot);
    assert(slot_index(mid.slots, slot_id@) == j);
    assert(mid.slots[j] == claimed_slot);
    assert(new.slots =~= old.slots.update(j, AgentSlot { prompt_draft: None, ..old.slots[j] }));
}

/// Unlocking a room that was just locked reopens it with the prompt snapshots taken
/// at locking.
pub proof fn law_unlock_after_lock_keeps_snapshots(
    old: RoomView,
    mid: RoomView,
    new: RoomView,
    locked: Result<(), DomainError>,
    unlocked: Result<(), DomainError>,
)
    requires
        old.version < u64::MAX - 1,
        lock_with_role_defaults_result(old, mid, locked),
        locked is Ok,
        status_change_result(mid, new, RoomStatus::Open, unlocked),
    ensures
        unlocked is Ok,
        new == (RoomView { slots: mid.slots, version: (old.version + 2) as u64, ..old }),
        forall|i: int| 0 <= i < new.slots.len() ==> (#[trigger] new.slots[i]).locked_prompt is Some,
{
    assert forall|i: int| 0 <= i < new.slots.len() implies (#[trigger] new.slots[i]).locked_prompt is Some by {
        assert(locked_slot(old.slots[i], mid.slots[i], spec_default_prompt(old.slots[i].role)));
    }
}

/// A room's status only changes along the lifecycle: open to locked, locked back to
/// open or on to running, running to finished.
pub proof fn law_status_follows_lifecycle(
    old: RoomView,
    new: RoomView,
    to: RoomStatus,
    match_id: MatchId,
    r: Result<(), DomainError>,
)
    requires
        lock_with_role_defaults_result(old, new, r) || status_change_result(old, new, to, r) || mark_running_result(
            old,
            new,
            match_id,
            r,
        ),
    ensures
        r is Ok ==> valid_transition(old.status, new.status),
        r is Err ==> new == old && r->Err_0 == (DomainError::InvalidRoomStatusTransition {
            from: old.status,
            to: if lock_with_role_defaults_result(old, new, r) {
                RoomStatus::Locked
            } else if status_change_result(old, new, to, r) {
                to
            } else {
                RoomStatus::Running
            },
        }),
{
}

/// Only an open room lets players claim, release or edit slots; any other room
/// refuses and stays as it was.
pub proof fn law_slot_edits_need_open_room(
    old: RoomView,
    new: RoomView,
    player_id: PlayerId,
    slot_id: SlotId,
    prompt: Seq<char>,
    r: Result<(), DomainError>,
)
    requires
        old.status != RoomStatus::Open,
        claim_slot_result(old, new, player_id, slot_id, r) || release_slot_result(old, new, player_id, slot_id, r)
            || update_prompt_result(old, new, player_id, slot_id, prompt, r),
    ensures
        new == old,
        r is Err,
        r->Err_0 is RoomStatusDoesNotAllowAction,
{
}

/// A player holds at most one slot, whatever claiming, releasing or editing a slot
/// returns, and whatever the room's version.
pub proof fn law_slot_actions_keep_one_slot_per_player(
    old: RoomView,
    new: RoomView,
    player_id: PlayerId,
    slot_id: SlotId,
    prompt: Seq<char>,
    r: Result<(), DomainError>,
)
    requires
        one_slot_per_player(old.slots),
        claim_slot_result(old, new, player_id, slot_id, r) || release_slot_result(old, new, player_id, slot_id, r)
            || update_prompt_result(old, new, player_id, slot_id, prompt, r),
    ensures
        one_slot_per_player(new.slots),
{
    if r is Ok {
        let j = slot_index(old.slots, slot_id@);
        let ns = new.slots;
        lemma_first_index(old.slots, slot_with_id(slot_id@));
        if claim_slot_result(old, new, player_id, slot_id, r) {
            lemma_first_index(old.slots, slot_owned_by(player_id@));
            assert(owned_slot_index(old.slots, player_id@) < 0);
            assert(forall|k: int| 0 <= k < old.slots.len() ==> !slot_owned_by(player_id@)(#[trigger] old.slots[k]));
            assert(ns =~= old.slots.update(j, AgentSlot { player_id: Some(player_id), ..old.slots[j] }));
            assert forall|a: int, b: int|
                0 <= a < ns.len() && 0 <= b < ns.len() && a != b && (#[trigger] ns[a]).player_id is Some
                    && (#[trigger] ns[b]).player_id is Some implies ns[a].player_id->0@ != ns[b].player_id->0@ by {
                assert(0 <= a < old.slots.len() && 0 <= b < old.slots.len());
                if a == j {
                    assert(ns[b] == old.slots[b]);
                    assert(!slot_owned_by(player_id@)(old.slots[b]));
                } else if b == j {
                    assert(ns[a] == old.slots[a]);
                    assert(!slot_owned_by(player_id@)(old.slots[a]));
                } else {
                    assert(ns[a] == old.slots[a] && ns[b] == old.slots[b]);
                }
            }
        } else {
            assert forall|a: int, b: int|
                0 <= a < ns.len() && 0 <= b < ns.len() && a != b && (#[trigger] ns[a]).player_id is Some
                    && (#[trigger] ns[b]).player_id is Some implies ns[a].player_id->0@ != ns[b].player_id->0@ by {
                assert(ns[a].player_id == old.slots[a].player_id || a == j);
                assert(ns[b].player_id == old.slots[b].player_id || b == j);
                if a == j && release_slot_result(old, new, player_id, slot_id, r) {
                } else if b == j && release_slot_result(old, new, player_id, slot_id, r) {
                } else {
                    assert(ns[a].player_id == old.slots[a].player_id);
                    assert(ns[b].player_id == old.slots[b].player_id);
                }
            }
        }
    }
}

/// Locking succeeds exactly on an open room. It then snapshots each slot's prompt: a
/// slot with a draft keeps that draft as its locked prompt, and only a slot without one
/// gets the fallback. Nothing else of a slot changes.
pub proof fn law_lock_snapshots_drafts(old: RoomView, new: RoomView, fallback: Seq<char>, r: Result<(), DomainError>)
    requires
        lock_result(old, new, fallback, r),
    ensures
        r is Ok <==> old.status == RoomStatus::Open,
        r is Err ==> new == old,
        r is Ok ==> new.status == RoomStatus::Locked && new.slots.len() == old.slots.len(),
        r is Ok ==> new.id == old.id && new.players == old.players && new.teams == old.teams && new.match_id == old.match_id,
        r is Ok && old.version < u64::MAX ==> new.version == old.version + 1,
        r is Ok ==> forall|i: int| 0 <= i < old.slots.len() && (#[trigger] old.slots[i]).prompt_draft is Some ==> {
            &&& new.slots[i].locked_prompt is Some
            &&& new.slots[i].locked_prompt->0@ == old.slots[i].prompt_draft->0@
        },
        r is Ok ==> forall|i: int| 0 <= i < old.slots.len() && (#[trigger] old.slots[i]).prompt_draft is None ==> {
            &&& new.slots[i].locked_prompt is Some
            &&& new.slots[i].locked_prompt->0@ == fallback
        },
        r is Ok ==> forall|i: int| 0 <= i < old.slots.len() ==> {
            &&& (#[trigger] new.slots[i]).id == old.slots[i].id
            &&& new.slots[i].team_id == old.slots[i].team_id
            &&& new.slots[i].role == old.slots[i].role
            &&& new.slots[i].player_id == old.slots[i].player_id
            &&& new.slots[i].prompt_draft == old.slots[i].prompt_draft
        },
{
    if r is Ok {
        assert forall|i: int| 0 <= i < old.slots.len() implies locked_slot(old.slots[i], #[trigger] new.slots[i], fallback) by {
            assert(locked_slot(old.slots[i], new.slots[i], (|k: int| fallback)(i)));
        }
    }
}

/// Locking with the roles' defaults snapshots each slot's draft where it has one, and
/// the default prompt of the slot's role where it has none.
pub proof fn law_lock_with_role_defaults_snapshots_drafts(old: RoomView, new: RoomView, r: Result<(), DomainError>)
    requires
        lock_with_role_defaults_result(old, new, r),
    ensures
        r is Ok <==> old.status == RoomStatus::Open,
        r is Err ==> new == old,
        r is Ok ==> new.status == RoomStatus::Locked && new.slots.len() == old.slots.len(),
        r is Ok ==> new.id == old.id && new.players == old.players && new.teams == old.teams && new.match_id == old.match_id,
        r is Ok && old.version < u64::MAX ==> new.version == old.version + 1,
        r is Ok ==> forall|i: int| 0 <= i < old.slots.len() && (#[trigger] old.slots[i]).prompt_draft is Some ==> {
            &&& new.slots[i].locked_prompt is Some
            &&& new.slots[i].locked_prompt->0@ == old.slots[i].prompt_draft->0@
        },
        r is Ok ==> forall|i: int| 0 <= i < old.slots.len() && (#[trigger] old.slots[i]).prompt_draft is None ==> {
            &&& new.slots[i].locked_prompt is Some
            &&& new.slots[i].locked_prompt->0@ == spec_default_prompt(old.slots[i].role)
        },
        r is Ok ==> forall|i: int| 0 <= i < old.slots.len() ==> {
            &&& (#[trigger] new.slots[i]).id == old.slots[i].id
            &&& new.slots[i].team_id == old.slots[i].team_id
            &&& new.slots[i].role == old.slots[i].role
            &&& new.slots[i].player_id == old.slots[i].player_id
            &&& new.slots[i].prompt_draft == old.slots[i].prompt_draft
        },
{
    if r is Ok {
        assert forall|i: int| 0 <= i < old.slots.len() implies locked_slot(
            old.slots[i],
            #[trigger] new.slots[i],
            spec_default_prompt(old.slots[i].role),
        ) by {
            assert(locked_slot(old.slots[i], new.slots[i], (|k: int| spec_default_prompt(old.slots[k].role))(i)));
        }
    }
}

/// A successful claim gives the player a free slot with the asked identifier in an open
/// room where the player held none; no other slot changes, and a refused claim changes
/// nothing.
pub proof fn law_claim_takes_only_a_free_slot(
    old: RoomView,
    new: RoomView,
    player_id: PlayerId,
    slot_id: SlotId,
    r: Result<(), DomainError>,
)
    requires
        claim_slot_result(old, new, player_id, slot_id, r),
    ensures
        r is Err ==> new == old,
        r is Ok ==> {
            &&& old.status == RoomStatus::Open
            &&& new.slots.len() == old.slots.len()
            &&& new.id == old.id && new.code == old.code && new.status == old.status && new.players == old.players
            &&& new.teams == old.teams && new.match_id == old.match_id
            &&& old.version < u64::MAX ==> new.version == old.version + 1
            &&& forall|k: int| 0 <= k < old.slots.len() ==> !((#[trigger] old.slots[k]).player_id is Some
                && old.slots[k].player_id->0@ == player_id@)
            &&& exists|i: int| {
                &&& 0 <= i < old.slots.len()
                &&& (#[trigger] old.slots[i]).id@ == slot_id@
                &&& old.slots[i].player_id is None
                &&& new.slots[i] == AgentSlot { player_id: Some(player_id), ..old.slots[i] }
                &&& forall|k: int| 0 <= k < old.slots.len() && k != i ==> new.slots[k] == #[trigger] old.slots[k]
            }
        },
{
    if r is Ok {
        let j = slot_index(old.slots, slot_id@);
        lemma_first_index(old.slots, slot_with_id(slot_id@));
        lemma_first_index(old.slots, slot_owned_by(player_id@));
        assert(forall|k: int| 0 <= k < old.slots.len() ==> !slot_owned_by(player_id@)(#[trigger] old.slots[k]));
        assert(old.slots[j].id@ == slot_id@);
    }
}

/// A successful release frees a slot with the asked identifier that the player held, and
/// clears its prompt draft; no other slot changes, and a refused release changes nothing.
pub proof fn law_release_frees_only_the_players_slot(
    old: RoomView,
    new: RoomView,
    player_id: PlayerId,
    slot_id: SlotId,
    r: Result<(), DomainError>,
)
    requires
        release_slot_result(old, new, player_id, slot_id, r),
    ensures
        r is Err ==> new == old,
        r is Ok ==> {
            &&& old.status == RoomStatus::Open
            &&& new.slots.len() == old.slots.len()
            &&& new.id == old.id && new.code == old.code && new.status == old.status && new.players == old.players
            &&& new.teams == old.teams && new.match_id == old.match_id
            &&& old.version < u64::MAX ==> new.version == old.version + 1
            &&& exists|i: int| {
                &&& 0 <= i < old.slots.len()
                &&& (#[trigger] old.slots[i]).id@ == slot_id@
                &&& old.slots[i].player_id is Some && old.slots[i].player_id->0@ == player_id@
                &&& new.slots[i] == AgentSlot { player_id: None, prompt_draft: None, ..old.slots[i] }
                &&& forall|k: int| 0 <= k < old.slots.len() && k != i ==> new.slots[k] == #[trigger] old.slots[k]
            }
        },
{
    if r is Ok {
        let j = slot_index(old.slots, slot_id@);
        lemma_first_index(old.slots, slot_with_id(slot_id@));
        assert(old.slots[j].id@ == slot_id@);
    }
}

/// A successful prompt update sets the draft of a slot with the asked identifier that the
/// player holds to the new prompt; nothing else changes, and a refused update changes
/// nothing.
pub proof fn law_prompt_update_edits_only_the_players_slot(
    old: RoomView,
    new: RoomView,
    player_id: PlayerId,
    slot_id: SlotId,
    prompt: Seq<char>,
    r: Result<(), DomainError>,
)
    requires
        update_prompt_result(old, new, player_id, slot_id, prompt, r),
    ensures
        r is Err ==> new == old,
        r is Ok ==> {
            &&& old.status == RoomStatus::Open
            &&& new.slots.len() == old.slots.len()
            &&& new.id == old.id && new.code == old.code && new.status == old.status && new.players == old.players
            &&& new.teams == old.teams && new.match_id == old.match_id
            &&& old.version < u64::MAX ==> new.version == old.version + 1
            &&& exists|i: int| {
                &&& 0 <= i < old.slots.len()
                &&& (#[trigger] old.slots[i]).id@ == slot_id@
                &&& old.slots[i].player_id is Some && old.slots[i].player_id->0@ == player_id@
                &&& new.slots[i].prompt_draft is Some && new.slots[i].prompt_draft->0@ == prompt
                &&& new.slots[i] == AgentSlot { prompt_draft: new.slots[i].prompt_draft, ..old.slots[i] }
                &&& forall|k: int| 0 <= k < old.slots.len() && k != i ==> new.slots[k] == #[trigger] old.slots[k]
            }
        },
{
    if r is Ok {
        let j = slot_index(old.slots, slot_id@);
        lemma_first_index(old.slots, slot_with_id(slot_id@));
        assert(old.slots[j].id@ == slot_id@);
    }
}

/// Whether some slot belongs to the team `team_id` and has `role`.
pub open spec fn has_slot_for(slots: Seq<AgentSlot>, team_id: TeamId, role: RoleName) -> bool {
    exists|k: int| 0 <= k < slots.len() && (#[trigger] slots[k]).team_id == team_id && slots[k].role == role
}

/// A new room is open and empty, with team A and team B, and for each team and each of
/// the six roles exactly one slot, free and without a prompt.
pub proof fn law_new_room_has_one_free_slot_per_role_and_team(r: RoomView, id: RoomId, code: RoomCode, timestamp: Timestamp)
    requires
        is_new_default_room(r, id, code, timestamp),
    ensures
        r.status == RoomStatus::Open && r.players.len() == 0 && r.match_id is None,
        r.teams.len() == 2 && r.teams[0].side == TeamSide::A && r.teams[1].side == TeamSide::B,
        r.teams[0].id@ != r.teams[1].id@,
        r.slots.len() == 12,
        forall|k: int| 0 <= k < r.slots.len() ==> {
            &&& (#[trigger] r.slots[k]).player_id is None
            &&& r.slots[k].prompt_draft is None
            &&& r.slots[k].locked_prompt is None
            &&& (r.slots[k].team_id == r.teams[0].id || r.slots[k].team_id == r.teams[1].id)
        },
        forall|t: int, role: RoleName| 0 <= t < 2 ==> #[trigger] has_slot_for(r.slots, r.teams[t].id, role),
        forall|a: int, b: int|
            0 <= a < r.slots.len() && 0 <= b < r.slots.len() && a != b ==> (#[trigger] r.slots[a]).team_id@ != (#[trigger] r.slots[b]).team_id@
                || r.slots[a].role != r.slots[b].role,
{
    reveal_strlit("team_a");
    reveal_strlit("team_b");
    assert("team_a"@[5] != "team_b"@[5]);
    let roles = spec_all_roles();
    assert forall|k: int| 0 <= k < r.slots.len() implies {
        &&& (#[trigger] r.slots[k]).player_id is None
        &&& r.slots[k].prompt_draft is None
        &&& r.slots[k].locked_prompt is None
        &&& (r.slots[k].team_id == r.teams[0].id || r.slots[k].team_id == r.teams[1].id)
    } by {
        let t = k / 6;
        let j = k % 6;
        assert(k == t * 6 + j);
        assert(is_default_slot(r.slots[t * 6 + j], r.teams[t], roles[j]));
    }
    assert forall|t: int, role: RoleName| 0 <= t < 2 implies #[trigger] has_slot_for(r.slots, r.teams[t].id, role) by {
        let j: int = match role {
            RoleName::Vanguard => 0,
            RoleName::Striker => 1,
            RoleName::Medic => 2,
            RoleName::Guardian => 3,
            RoleName::Scout => 4,
            RoleName::Engineer => 5,
        };
        assert(roles[j] == role);
        assert(is_default_slot(r.slots[t * 6 + j], r.teams[t], roles[j]));
        assert(r.slots[t * 6 + j].team_id == r.teams[t].id && r.slots[t * 6 + j].role == role);
    }
    assert forall|a: int, b: int|
        0 <= a < r.slots.len() && 0 <= b < r.slots.len() && a != b implies (#[trigger] r.slots[a]).team_id@ != (#[trigger] r.slots[b]).team_id@
            || r.slots[a].role != r.slots[b].role by {
        let ta = a / 6;
        let ja = a % 6;
        let tb = b / 6;
        let jb = b % 6;
        assert(a == ta * 6 + ja);
        assert(b == tb * 6 + jb);
        assert(is_default_slot(r.slots[ta * 6 + ja], r.teams[ta], roles[ja]));
        assert(is_default_slot(r.slots[tb * 6 + jb], r.teams[tb], roles[jb]));
    }
}

} // verus!
