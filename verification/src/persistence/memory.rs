//! In-memory store for local development and tests.
//!
//! Rooms are kept sorted by identifier, which is the order `list_rooms` gives
//! them in; matches, events, snapshots, decisions and audit entries are kept in
//! the order they were stored. The store keeps these invariants:
//! room identifiers and room codes are unique, a room holds each player once,
//! no player holds two slots of a room, match identifiers are unique, and the
//! snapshots of a match are ordered by turn with no turn twice.

use std::collections::HashMap;

use vstd::prelude::*;

use crate::domain::error::{DisplayNameValidationError, DomainError};
use crate::domain::event::{AgentDecisionLog, AgentDecisionLogView, GameEvent, GameStateSnapshot, GameStateSnapshotView};
use crate::domain::game_match::{Match, MatchEndReason, MatchResult, MatchResultView, MatchStatus, MatchView};
use crate::domain::ids::{AgentId, MatchId, PlayerId, RoomCode, RoomId};
use crate::domain::player::{spec_validate_display_name, validate_display_name, Player};
use crate::domain::room::{
    claim_allowed, owner_action_error, valid_transition, claim_slot_result, is_new_default_room, lock_with_role_defaults_result, mark_running_result, one_slot_per_player,
    release_slot_result, status_change_result, update_prompt_result, Room, RoomStatus, RoomView,
};
use crate::domain::room::{is_player, owned_slot_index, slot_owned_by};
use crate::domain::slot::AgentSlot;
use crate::persistence::traits::{
    AddPlayerInput, AdminAuditLog, ClaimSlotInput, CreateMatchInput, CreateRoomInput, LockRoomInput, MatchError,
    ReleaseSlotInput, RemovePlayerInput, RenamePlayerInput, RepoError, UpdateSlotPromptInput,
};
use crate::seqs::{first_index, lemma_first_index, lemma_first_index_is, lemma_first_index_none, lemma_first_index_update};
use crate::text::{lemma_seq_lt_total, lemma_seq_lt_trans, seq_lt, str_lt};

verus! {

/// The in-memory store.
pub struct MemoryPersistence {
    rooms: Vec<Room>,
    matches: Vec<Match>,
    game_events: Vec<GameEvent>,
    game_states: Vec<GameStateSnapshot>,
    agent_decisions: Vec<AgentDecisionLog>,
    admin_audit_logs: Vec<AdminAuditLog>,
}

/// The contents of the store.
pub struct MemoryView {
    pub rooms: Seq<RoomView>,
    pub matches: Seq<MatchView>,
    pub events: Seq<GameEvent>,
    pub snapshots: Seq<GameStateSnapshotView>,
    pub decisions: Seq<AgentDecisionLogView>,
    pub audit_logs: Seq<AdminAuditLog>,
}

impl View for MemoryPersistence {
    type V = MemoryView;

    closed spec fn view(&self) -> MemoryView {
        MemoryView {
            rooms: self.rooms@.map_values(|r: Room| r@),
            matches: self.matches@.map_values(|m: Match| m@),
            events: self.game_events@,
            snapshots: self.game_states@.map_values(|s: GameStateSnapshot| s@),
            decisions: self.agent_decisions@.map_values(|d: AgentDecisionLog| d@),
            audit_logs: self.admin_audit_logs@,
        }
    }
}

// ---------------------------------------------------------------------------
// The model of the store.
// ---------------------------------------------------------------------------

/// Matches a room by identifier.
pub open spec fn room_with_id(id: Seq<char>) -> spec_fn(RoomView) -> bool {
    |r: RoomView| r.id@ == id
}

/// Matches a room by code.
pub open spec fn room_with_code(code: Seq<char>) -> spec_fn(RoomView) -> bool {
    |r: RoomView| r.code@ == code
}

/// Matches a player by identifier.
pub open spec fn player_with_id(id: Seq<char>) -> spec_fn(Player) -> bool {
    |p: Player| p.id@ == id
}

/// The index of the room with the given identifier, or -1.
pub open spec fn room_index(rooms: Seq<RoomView>, id: Seq<char>) -> int {
    first_index(rooms, room_with_id(id))
}

/// The index of the room with the given code, or -1.
pub open spec fn room_code_index(rooms: Seq<RoomView>, code: Seq<char>) -> int {
    first_index(rooms, room_with_code(code))
}

/// The index of the player with the given identifier, or -1.
pub open spec fn player_index(players: Seq<Player>, id: Seq<char>) -> int {
    first_index(players, player_with_id(id))
}

/// Matches a room whose identifier comes after `id`.
pub open spec fn room_after(id: Seq<char>) -> spec_fn(RoomView) -> bool {
    |r: RoomView| seq_lt(id, r.id@)
}

/// Where a room with identifier `id` goes to keep the rooms sorted.
pub open spec fn insert_position(rooms: Seq<RoomView>, id: Seq<char>) -> int {
    let p = first_index(rooms, room_after(id));
    if p < 0 {
        rooms.len() as int
    } else {
        p
    }
}

/// The rooms are sorted by identifier, without two equal identifiers.
pub open spec fn rooms_sorted(rooms: Seq<RoomView>) -> bool {
    forall|i: int, j: int| 0 <= i < j < rooms.len() ==> seq_lt((#[trigger] rooms[i]).id@, (#[trigger] rooms[j]).id@)
}

/// No two rooms share a code.
pub open spec fn codes_unique(rooms: Seq<RoomView>) -> bool {
    forall|i: int, j: int| 0 <= i < rooms.len() && 0 <= j < rooms.len() && i != j ==> (#[trigger] rooms[i]).code@ != (#[trigger] rooms[j]).code@
}

/// No two players of the sequence share an identifier.
pub open spec fn players_unique(players: Seq<Player>) -> bool {
    forall|i: int, j: int|
        0 <= i < players.len() && 0 <= j < players.len() && i != j ==> (#[trigger] players[i]).id@ != (#[trigger] players[j]).id@
}

/// A room holds each player once and no player holds two of its slots.
pub open spec fn room_wf(r: RoomView) -> bool {
    players_unique(r.players) && one_slot_per_player(r.slots)
}

/// No two matches share an identifier.
pub open spec fn matches_unique(matches: Seq<MatchView>) -> bool {
    forall|i: int, j: int|
        0 <= i < matches.len() && 0 <= j < matches.len() && i != j ==> (#[trigger] matches[i]).id@ != (#[trigger] matches[j]).id@
}

/// The snapshots of each match are ordered by turn, with no turn twice.
pub open spec fn snapshots_ordered(snaps: Seq<GameStateSnapshotView>) -> bool {
    forall|i: int, j: int|
        0 <= i < j < snaps.len() && (#[trigger] snaps[i]).match_id@ == (#[trigger] snaps[j]).match_id@ ==> snaps[i].turn < snaps[j].turn
}

impl MemoryView {
    /// The invariants of the store.
    pub open spec fn wf(self) -> bool {
        &&& rooms_sorted(self.rooms)
        &&& codes_unique(self.rooms)
        &&& forall|i: int| 0 <= i < self.rooms.len() ==> room_wf(#[trigger] self.rooms[i])
        &&& matches_unique(self.matches)
        &&& snapshots_ordered(self.snapshots)
    }

    /// The room with identifier `id`, if it is stored, can take one more version.
    pub open spec fn room_can_bump(self, id: Seq<char>) -> bool {
        let i = room_index(self.rooms, id);
        i >= 0 ==> self.rooms[i].version < u64::MAX
    }

    /// The room with identifier `id`, when it is stored and `changes` holds of it, can
    /// take one more version: a change that `changes` describes bumps the version, and
    /// a refused one leaves it.
    pub open spec fn room_can_bump_when(self, id: Seq<char>, changes: spec_fn(RoomView) -> bool) -> bool {
        let i = room_index(self.rooms, id);
        i >= 0 && changes(self.rooms[i]) ==> self.rooms[i].version < u64::MAX
    }

    /// The store with room `i` replaced.
    pub open spec fn with_room(self, i: int, room: RoomView) -> MemoryView {
        MemoryView { rooms: self.rooms.update(i, room), ..self }
    }
}

/// The result of looking up the room with identifier `id`: its index, or the error.
pub open spec fn room_lookup(v: MemoryView, id: RoomId) -> Result<int, RepoError> {
    let i = room_index(v.rooms, id@);
    if i < 0 {
        Err(RepoError::RoomNotFound { room_id: id })
    } else {
        Ok(i)
    }
}

/// The error for a player that is not in the room, if so.
pub open spec fn player_missing(room: RoomView, player_id: PlayerId) -> Option<RepoError> {
    if player_index(room.players, player_id@) < 0 {
        Some(RepoError::PlayerNotFound { room_id: room.id, player_id })
    } else {
        None
    }
}

/// `r` is the result of an operation on the stored room `room_id` whose effect on that
/// room is `step` (the new room, or the domain error), and `new` is the store after it.
pub open spec fn room_step_result(
    old: MemoryView,
    new: MemoryView,
    room_id: RoomId,
    step: spec_fn(RoomView, RoomView, Result<(), DomainError>) -> bool,
    needs_player: Option<PlayerId>,
    r: Result<Room, RepoError>,
) -> bool {
    match room_lookup(old, room_id) {
        Err(e) => r == Err::<Room, RepoError>(e) && new == old,
        Ok(i) => {
            let missing = match needs_player {
                Some(p) => player_missing(old.rooms[i], p),
                None => None,
            };
            match missing {
                Some(e) => r == Err::<Room, RepoError>(e) && new == old,
                None => match r {
                    Ok(room) => step(old.rooms[i], room@, Ok(())) && new == old.with_room(i, room@),
                    Err(RepoError::Domain(e)) => step(old.rooms[i], old.rooms[i], Err(e)) && new == old,
                    Err(_) => false,
                },
            }
        },
    }
}


} // verus!

verus! {

/// What creating a room does: a new default room goes in at its place in the order.
pub open spec fn create_room_result(old: MemoryView, new: MemoryView, input: CreateRoomInput, r: Result<Room, RepoError>) -> bool {
    if room_index(old.rooms, input.room_id@) >= 0 {
        r == Err::<Room, RepoError>(RepoError::RoomAlreadyExists { room_id: input.room_id }) && new == old
    } else if room_code_index(old.rooms, input.code@) >= 0 {
        r == Err::<Room, RepoError>(RepoError::RoomCodeAlreadyExists { code: input.code }) && new == old
    } else {
        &&& r is Ok
        &&& is_new_default_room(r->Ok_0@, input.room_id, input.code, input.timestamp)
        &&& new == (MemoryView {
            rooms: old.rooms.insert(insert_position(old.rooms, input.room_id@), r->Ok_0@),
            ..old
        })
    }
}

/// The slot with its owner cleared when `player` owns it.
pub open spec fn cleared_slot(player: Seq<char>) -> spec_fn(AgentSlot) -> AgentSlot {
    |s: AgentSlot|
        if slot_owned_by(player)(s) {
            AgentSlot { player_id: None, prompt_draft: None, ..s }
        } else {
            s
        }
}

/// What adding a player does.
pub open spec fn add_player_result(
    old: MemoryView,
    new: MemoryView,
    input: AddPlayerInput,
    r: Result<(Room, Player), RepoError>,
) -> bool {
    match room_lookup(old, input.room_id) {
        Err(e) => r == Err::<(Room, Player), RepoError>(e) && new == old,
        Ok(i) => {
            let room = old.rooms[i];
            if player_index(room.players, input.player_id@) >= 0 {
                &&& r == Err::<(Room, Player), RepoError>(
                    RepoError::PlayerAlreadyExists { room_id: input.room_id, player_id: input.player_id },
                )
                &&& new == old
            } else {
                match spec_validate_display_name(input.display_name@) {
                    Err(e) => {
                        &&& r == Err::<(Room, Player), RepoError>(RepoError::Domain(DomainError::InvalidDisplayName(e)))
                        &&& new == old
                    },
                    Ok(name) => {
                        &&& r is Ok
                        &&& r->Ok_0.1.id == input.player_id
                        &&& r->Ok_0.1.display_name@ == name
                        &&& r->Ok_0.1.token_hash@ == input.token_hash@
                        &&& r->Ok_0.1.joined_at == input.timestamp
                        &&& r->Ok_0.1.last_seen_at == input.timestamp
                        &&& r->Ok_0.0@ == (RoomView {
                            players: room.players.push(r->Ok_0.1),
                            version: (room.version + 1) as u64,
                            ..room
                        })
                        &&& new == old.with_room(i, r->Ok_0.0@)
                    },
                }
            }
        },
    }
}

/// What renaming a player does.
pub open spec fn rename_player_result(
    old: MemoryView,
    new: MemoryView,
    input: RenamePlayerInput,
    r: Result<(Room, Player), RepoError>,
) -> bool {
    match room_lookup(old, input.room_id) {
        Err(e) => r == Err::<(Room, Player), RepoError>(e) && new == old,
        Ok(i) => {
            let room = old.rooms[i];
            let j = player_index(room.players, input.player_id@);
            if j < 0 {
                &&& r == Err::<(Room, Player), RepoError>(
                    RepoError::PlayerNotFound { room_id: input.room_id, player_id: input.player_id },
                )
                &&& new == old
            } else {
                match spec_validate_display_name(input.display_name@) {
                    Err(e) => {
                        &&& r == Err::<(Room, Player), RepoError>(RepoError::Domain(DomainError::InvalidDisplayName(e)))
                        &&& new == old
                    },
                    Ok(name) => {
                        &&& r is Ok
                        &&& r->Ok_0.1 == (Player { display_name: r->Ok_0.1.display_name, ..room.players[j] })
                        &&& r->Ok_0.1.display_name@ == name
                        &&& r->Ok_0.0@ == (RoomView {
                            players: room.players.update(j, r->Ok_0.1),
                            version: (room.version + 1) as u64,
                            ..room
                        })
                        &&& new == old.with_room(i, r->Ok_0.0@)
                    },
                }
            }
        },
    }
}

/// What removing a player does: an open room also frees the player's slot.
pub open spec fn remove_player_result(old: MemoryView, new: MemoryView, input: RemovePlayerInput, r: Result<Room, RepoError>) -> bool {
    match room_lookup(old, input.room_id) {
        Err(e) => r == Err::<Room, RepoError>(e) && new == old,
        Ok(i) => {
            let room = old.rooms[i];
            let j = player_index(room.players, input.player_id@);
            if j < 0 {
                &&& r == Err::<Room, RepoError>(
                    RepoError::PlayerNotFound { room_id: input.room_id, player_id: input.player_id },
                )
                &&& new == old
            } else {
                &&& r is Ok
                &&& r->Ok_0@ == (RoomView {
                    players: room.players.remove(j),
                    slots: if room.status == RoomStatus::Open {
                        room.slots.map_values(cleared_slot(input.player_id@))
                    } else {
                        room.slots
                    },
                    version: (room.version + 1) as u64,
                    ..room
                })
                &&& new == old.with_room(i, r->Ok_0@)
            }
        },
    }
}

/// What attaching a match to a room does.
pub open spec fn attach_match_result(old: MemoryView, new: MemoryView, room_id: RoomId, match_id: MatchId, r: Result<Room, RepoError>) -> bool {
    match room_lookup(old, room_id) {
        Err(e) => r == Err::<Room, RepoError>(e) && new == old,
        Ok(i) => {
            let room = old.rooms[i];
            if room.match_id is Some {
                &&& r == Err::<Room, RepoError>(RepoError::RoomMatchAlreadyExists { room_id, match_id: room.match_id->0 })
                &&& new == old
            } else {
                match r {
                    Ok(x) => mark_running_result(room, x@, match_id, Ok(())) && new == old.with_room(i, x@),
                    Err(RepoError::Domain(e)) => mark_running_result(room, room, match_id, Err(e)) && new == old,
                    Err(_) => false,
                }
            }
        },
    }
}

/// What forcing a room's status does.
pub open spec fn set_status_result(old: MemoryView, new: MemoryView, room_id: RoomId, status: RoomStatus, r: Result<Room, RepoError>) -> bool {
    match room_lookup(old, room_id) {
        Err(e) => r == Err::<Room, RepoError>(e) && new == old,
        Ok(i) => {
            let room = old.rooms[i];
            &&& r is Ok
            &&& r->Ok_0@ == (RoomView { status, version: (room.version + 1) as u64, ..room })
            &&& new == old.with_room(i, r->Ok_0@)
        },
    }
}


/// Matches a match by identifier.
pub open spec fn match_with_id(id: Seq<char>) -> spec_fn(MatchView) -> bool {
    |m: MatchView| m.id@ == id
}

/// Matches a match of the given room.
pub open spec fn match_of_room(room_id: Seq<char>) -> spec_fn(MatchView) -> bool {
    |m: MatchView| m.room_id@ == room_id
}

/// The index of the match with the given identifier, or -1.
pub open spec fn match_index(matches: Seq<MatchView>, id: Seq<char>) -> int {
    first_index(matches, match_with_id(id))
}

/// The result of looking up a match: its index, or the error.
pub open spec fn match_lookup(v: MemoryView, id: MatchId) -> Result<int, RepoError> {
    let i = match_index(v.matches, id@);
    if i < 0 {
        Err(RepoError::MatchNotFound { match_id: id })
    } else {
        Ok(i)
    }
}

/// `r` is the result of changing the stored match `id` by `f`, and `new` the store after.
pub open spec fn match_step_result(
    old: MemoryView,
    new: MemoryView,
    id: MatchId,
    f: spec_fn(MatchView) -> MatchView,
    r: Result<Match, RepoError>,
) -> bool {
    match match_lookup(old, id) {
        Err(e) => r == Err::<Match, RepoError>(e) && new == old,
        Ok(i) => {
            &&& r is Ok
            &&& r->Ok_0@ == f(old.matches[i])
            &&& new == (MemoryView { matches: old.matches.update(i, r->Ok_0@), ..old })
        },
    }
}

/// The time a match counts as finished at: its start, or its creation if it never started.
pub open spec fn finish_time(m: MatchView) -> Option<u64> {
    match m.started_at {
        Some(t) => Some(t),
        None => Some(m.created_at),
    }
}

/// What starting does to a match: it runs, and counts as started when it was created.
pub open spec fn running_step() -> spec_fn(MatchView) -> MatchView {
    |m: MatchView| MatchView { status: MatchStatus::Running, started_at: Some(m.created_at), ..m }
}

/// What moving a match to turn `turn` does to it.
pub open spec fn turn_step(turn: u32) -> spec_fn(MatchView) -> MatchView {
    |m: MatchView| MatchView { current_turn: turn, ..m }
}

/// What finishing does to a match: it is finished with `result`, at its finish time.
pub open spec fn finished_step(result: MatchResultView) -> spec_fn(MatchView) -> MatchView {
    |m: MatchView| MatchView { status: MatchStatus::Finished, result: Some(result), finished_at: finish_time(m), ..m }
}

/// What failing does to a match: it is failed with an empty result, at its finish time.
pub open spec fn failed_step() -> spec_fn(MatchView) -> MatchView {
    |m: MatchView|
        MatchView {
            status: MatchStatus::Failed,
            result: Some(MatchResultView { winner: None, score: Map::empty(), reason: MatchEndReason::Failed }),
            finished_at: finish_time(m),
            ..m
        }
}

/// Matches the events of a match.
pub open spec fn event_of_match(match_id: Seq<char>) -> spec_fn(GameEvent) -> bool {
    |e: GameEvent| e.match_id@ == match_id
}

/// Matches the events of one turn of a match.
pub open spec fn event_of_turn(match_id: Seq<char>, turn: u32) -> spec_fn(GameEvent) -> bool {
    |e: GameEvent| e.match_id@ == match_id && e.turn == turn
}

/// Matches the snapshots of a match.
pub open spec fn snapshot_of_match(match_id: Seq<char>) -> spec_fn(GameStateSnapshotView) -> bool {
    |s: GameStateSnapshotView| s.match_id@ == match_id
}

/// Matches the snapshot of one turn of a match.
pub open spec fn snapshot_at(match_id: Seq<char>, turn: u32) -> spec_fn(GameStateSnapshotView) -> bool {
    |s: GameStateSnapshotView| s.match_id@ == match_id && s.turn == turn
}

/// Matches the snapshots of a match after the given turn.
pub open spec fn snapshot_after(match_id: Seq<char>, turn: u32) -> spec_fn(GameStateSnapshotView) -> bool {
    |s: GameStateSnapshotView| s.match_id@ == match_id && s.turn > turn
}

/// Where a new snapshot of `match_id` at `turn` goes to keep the snapshots ordered.
pub open spec fn snapshot_position(snaps: Seq<GameStateSnapshotView>, match_id: Seq<char>, turn: u32) -> int {
    let p = first_index(snaps, snapshot_after(match_id, turn));
    if p < 0 {
        snaps.len() as int
    } else {
        p
    }
}

/// What saving a snapshot does: it replaces the snapshot of the same turn, or joins the
/// snapshots of its match in turn order.
pub open spec fn saved_snapshots(snaps: Seq<GameStateSnapshotView>, s: GameStateSnapshotView) -> Seq<GameStateSnapshotView> {
    let i = first_index(snaps, snapshot_at(s.match_id@, s.turn));
    if i >= 0 {
        snaps.update(i, s)
    } else {
        snaps.insert(snapshot_position(snaps, s.match_id@, s.turn), s)
    }
}

/// Matches the decisions of a match.
pub open spec fn decision_of_match(match_id: Seq<char>) -> spec_fn(AgentDecisionLogView) -> bool {
    |d: AgentDecisionLogView| d.match_id@ == match_id
}

/// Matches the decisions of an agent.
pub open spec fn decision_by_agent(agent_id: Seq<char>) -> spec_fn(AgentDecisionLogView) -> bool {
    |d: AgentDecisionLogView| d.agent_id@ == agent_id
}

/// Matches the decisions of one agent of a match.
pub open spec fn decision_of_agent(match_id: Seq<char>, agent_id: Seq<char>) -> spec_fn(AgentDecisionLogView) -> bool {
    |d: AgentDecisionLogView| d.match_id@ == match_id && d.agent_id@ == agent_id
}

/// One step of filtering a prefix.
pub proof fn lemma_filter_take_step<A>(s: Seq<A>, p: spec_fn(A) -> bool, i: int)
    requires
        0 <= i < s.len(),
    ensures
        s.take(i + 1).filter(p) == if p(s[i]) {
            s.take(i).filter(p).push(s[i])
        } else {
            s.take(i).filter(p)
        },
{
    reveal(Seq::filter);
    assert(s.take(i + 1).drop_last() =~= s.take(i));
    assert(s.take(i + 1).last() == s[i]);
}

/// Copies of the rooms, in order.
fn clone_rooms(rooms: &Vec<Room>) -> (r: Vec<Room>)
    ensures
        r@.map_values(|x: Room| x@) == rooms@.map_values(|x: Room| x@),
{
    let copies = rooms.clone();
    assert forall|i: int| 0 <= i < copies@.len() implies (#[trigger] copies@[i])@ == rooms@[i]@ by {
        assert(vstd::pervasive::cloned(rooms@[i], copies@[i]));
    }
    assert(copies@.map_values(|x: Room| x@) =~= rooms@.map_values(|x: Room| x@));
    copies
}

impl MemoryPersistence {
    #[verifier::type_invariant]
    spec fn inv(self) -> bool {
        self@.wf()
    }

    /// An empty store.
    #[must_use]
    pub fn new() -> (r: Self)
        ensures
            r@.rooms.len() == 0,
            r@.matches.len() == 0,
            r@.events.len() == 0,
            r@.snapshots.len() == 0,
            r@.decisions.len() == 0,
            r@.audit_logs.len() == 0,
            r@.wf(),
    {
        let r = MemoryPersistence {
            rooms: Vec::new(),
            matches: Vec::new(),
            game_events: Vec::new(),
            game_states: Vec::new(),
            agent_decisions: Vec::new(),
            admin_audit_logs: Vec::new(),
        };
        assert(r@.rooms =~= Seq::<RoomView>::empty());
        assert(r@.snapshots =~= Seq::<GameStateSnapshotView>::empty());
        assert(r@.matches =~= Seq::<MatchView>::empty());
        r
    }

    /// Whether the room `room_id`, if stored, can take one more version.
    pub fn room_can_bump(&self, room_id: &RoomId) -> (r: bool)
        ensures
            r == self@.room_can_bump(room_id@),
    {
        match self.find_room(room_id) {
            Some(i) => {
                assert(self.rooms@[i as int]@ == self@.rooms[i as int]);
                self.rooms[i].version < u64::MAX
            },
            None => true,
        }
    }

    /// The index of the room with the given identifier.
    fn find_room(&self, room_id: &RoomId) -> (r: Option<usize>)
        ensures
            match r {
                Some(i) => i < self@.rooms.len() && i == room_index(self@.rooms, room_id@),
                None => room_index(self@.rooms, room_id@) == -1,
            },
    {
        let ghost rv = self@.rooms;
        let mut i: usize = 0;
        while i < self.rooms.len()
            invariant
                rv == self@.rooms,
                rv.len() == self.rooms@.len(),
                i <= rv.len(),
                forall|k: int| 0 <= k < i ==> !room_with_id(room_id@)(#[trigger] rv[k]),
            decreases rv.len() - i,
        {
            assert(rv[i as int] == self.rooms@[i as int]@);
            if self.rooms[i].id == *room_id {
                proof {
                    lemma_first_index_is(rv, room_with_id(room_id@), i as int);
                }
                return Some(i);
            }
            i = i + 1;
        }
        proof {
            lemma_first_index_none(rv, room_with_id(room_id@));
        }
        None
    }

    /// The index of the room with the given code.
    fn find_room_by_code(&self, code: &RoomCode) -> (r: Option<usize>)
        ensures
            match r {
                Some(i) => i < self@.rooms.len() && i == room_code_index(self@.rooms, code@),
                None => room_code_index(self@.rooms, code@) == -1,
            },
    {
        let ghost rv = self@.rooms;
        let mut i: usize = 0;
        while i < self.rooms.len()
            invariant
                rv == self@.rooms,
                rv.len() == self.rooms@.len(),
                i <= rv.len(),
                forall|k: int| 0 <= k < i ==> !room_with_code(code@)(#[trigger] rv[k]),
            decreases rv.len() - i,
        {
            assert(rv[i as int] == self.rooms@[i as int]@);
            if self.rooms[i].code == *code {
                proof {
                    lemma_first_index_is(rv, room_with_code(code@), i as int);
                }
                return Some(i);
            }
            i = i + 1;
        }
        proof {
            lemma_first_index_none(rv, room_with_code(code@));
        }
        None
    }

    /// Where a room with the given identifier goes.
    fn find_insert_position(&self, room_id: &RoomId) -> (r: usize)
        ensures
            r == insert_position(self@.rooms, room_id@),
            r <= self@.rooms.len(),
    {
        let ghost rv = self@.rooms;
        let mut i: usize = 0;
        while i < self.rooms.len()
            invariant
                rv == self@.rooms,
                rv.len() == self.rooms@.len(),
                i <= rv.len(),
                forall|k: int| 0 <= k < i ==> !room_after(room_id@)(#[trigger] rv[k]),
            decreases rv.len() - i,
        {
            assert(rv[i as int] == self.rooms@[i as int]@);
            if str_lt(room_id.as_str(), self.rooms[i].id.as_str()) {
                proof {
                    lemma_first_index_is(rv, room_after(room_id@), i as int);
                }
                return i;
            }
            i = i + 1;
        }
        proof {
            lemma_first_index_none(rv, room_after(room_id@));
        }
        i
    }

    /// The index of the stored room `room_id`.
    fn room_mut(&self, room_id: &RoomId) -> (r: Result<usize, RepoError>)
        ensures
            match r {
                Ok(i) => room_lookup(self@, *room_id) == Ok::<int, RepoError>(i as int) && i < self@.rooms.len(),
                Err(e) => room_lookup(self@, *room_id) == Err::<int, RepoError>(e),
            },
    {
        match self.find_room(room_id) {
            Some(i) => Ok(i),
            None => Err(RepoError::RoomNotFound { room_id: room_id.clone() }),
        }
    }

    /// Creates a new default room.
    ///
    /// # Errors
    ///
    /// Returns an error when a room with the same identifier or code exists.
    pub fn create_room(&mut self, input: CreateRoomInput) -> (r: Result<Room, RepoError>)
        ensures
            final(self)@.wf(),
            create_room_result(old(self)@, final(self)@, input, r),
    {
        proof {
            use_type_invariant(&*self);
        }
        if self.find_room(&input.room_id).is_some() {
            return Err(RepoError::RoomAlreadyExists { room_id: input.room_id });
        }
        if self.find_room_by_code(&input.code).is_some() {
            return Err(RepoError::RoomCodeAlreadyExists { code: input.code });
        }
        let ghost old_view = self@;
        let pos = self.find_insert_position(&input.room_id);
        let room = Room::new_default(input.room_id, input.code, input.timestamp);
        let out = room.clone();
        proof {
            let rv = old_view.rooms;
            let id = room@.id@;
            lemma_first_index(rv, room_after(id));
            lemma_first_index(rv, room_with_id(id));
            lemma_first_index(rv, room_with_code(room@.code@));
            let nv = rv.insert(pos as int, room@);
            assert forall|a: int, b: int| 0 <= a < b < nv.len() implies seq_lt((#[trigger] nv[a]).id@, (#[trigger] nv[b]).id@) by {
                if a < pos && b < pos {
                    assert(nv[a] == rv[a] && nv[b] == rv[b]);
                } else if a < pos && b == pos {
                    assert(nv[a] == rv[a]);
                    assert(!room_after(id)(rv[a]));
                    assert(!room_with_id(id)(rv[a]));
                    lemma_seq_lt_total(rv[a].id@, id);
                } else if a < pos && b > pos {
                    assert(nv[a] == rv[a] && nv[b] == rv[b - 1]);
                } else if a == pos {
                    assert(nv[b] == rv[b - 1]);
                    assert(room_after(id)(rv[pos as int]));
                    if b - 1 > pos {
                        assert(seq_lt(rv[pos as int].id@, rv[b - 1].id@));
                        lemma_seq_lt_trans(id, rv[pos as int].id@, rv[b - 1].id@);
                    }
                } else {
                    assert(nv[a] == rv[a - 1] && nv[b] == rv[b - 1]);
                }
            }
            assert forall|a: int, b: int| 0 <= a < nv.len() && 0 <= b < nv.len() && a != b implies (#[trigger] nv[a]).code@ != (#[trigger] nv[b]).code@ by {
                if a == pos {
                    assert(!room_with_code(room@.code@)(nv[b]));
                } else if b == pos {
                    assert(!room_with_code(room@.code@)(nv[a]));
                }
            }
            assert(room_wf(room@)) by {
                assert(room@.players.len() == 0);
            }
        }
        let mut rooms: Vec<Room> = Vec::new();
        std::mem::swap(&mut rooms, &mut self.rooms);
        rooms.insert(pos, room);
        assert(rooms@.map_values(|x: Room| x@) =~= old_view.rooms.insert(pos as int, out@));
        self.rooms = rooms;
        Ok(out)
    }

    /// The room with the given identifier, if stored.
    ///
    /// # Errors
    ///
    /// Never fails; the error is part of the repository interface.
    pub fn get_room(&self, room_id: &RoomId) -> (r: Result<Option<Room>, RepoError>)
        ensures
            r is Ok,
            room_index(self@.rooms, room_id@) < 0 ==> r == Ok::<Option<Room>, RepoError>(None),
            room_index(self@.rooms, room_id@) >= 0 ==> r is Ok && r->Ok_0 is Some && r->Ok_0->0@ == self@.rooms[room_index(self@.rooms, room_id@)],
    {
        match self.find_room(room_id) {
            Some(i) => {
                let room = self.rooms[i].clone();
                assert(self.rooms@[i as int]@ == self@.rooms[i as int]);
                Ok(Some(room))
            },
            None => Ok(None),
        }
    }

    /// The room with the given code, if stored.
    ///
    /// # Errors
    ///
    /// Never fails; the error is part of the repository interface.
    pub fn get_room_by_code(&self, code: &RoomCode) -> (r: Result<Option<Room>, RepoError>)
        ensures
            r is Ok,
            room_code_index(self@.rooms, code@) < 0 ==> r == Ok::<Option<Room>, RepoError>(None),
            room_code_index(self@.rooms, code@) >= 0 ==> r is Ok && r->Ok_0 is Some && r->Ok_0->0@ == self@.rooms[room_code_index(self@.rooms, code@)],
    {
        match self.find_room_by_code(code) {
            Some(i) => {
                let room = self.rooms[i].clone();
                assert(self.rooms@[i as int]@ == self@.rooms[i as int]);
                Ok(Some(room))
            },
            None => Ok(None),
        }
    }

    /// All rooms, sorted by identifier.
    ///
    /// # Errors
    ///
    /// Never fails; the error is part of the repository interface.
    pub fn list_rooms(&self) -> (r: Result<Vec<Room>, RepoError>)
        ensures
            r is Ok,
            r->Ok_0@.map_values(|x: Room| x@) == self@.rooms,
            rooms_sorted(self@.rooms),
    {
        proof {
            use_type_invariant(self);
        }
        Ok(clone_rooms(&self.rooms))
    }

    /// Replaces room `i` by a room with the same identifier and code.
    fn put_room(&mut self, i: usize, room: Room)
        requires
            i < old(self)@.rooms.len(),
            room@.id == old(self)@.rooms[i as int].id,
            room@.code == old(self)@.rooms[i as int].code,
            room_wf(room@),
        ensures
            final(self)@ == old(self)@.with_room(i as int, room@),
    {
        proof {
            use_type_invariant(&*self);
        }
        let ghost old_view = self@;
        let ghost rv = room@;
        let mut rooms: Vec<Room> = Vec::new();
        std::mem::swap(&mut rooms, &mut self.rooms);
        rooms.set(i, room);
        proof {
            let nv = rooms@.map_values(|x: Room| x@);
            assert(nv =~= old_view.rooms.update(i as int, rv));
            assert forall|a: int, b: int| 0 <= a < b < nv.len() implies seq_lt((#[trigger] nv[a]).id@, (#[trigger] nv[b]).id@) by {
                assert(nv[a].id == old_view.rooms[a].id && nv[b].id == old_view.rooms[b].id);
            }
            assert forall|a: int, b: int| 0 <= a < nv.len() && 0 <= b < nv.len() && a != b implies (#[trigger] nv[a]).code@ != (#[trigger] nv[b]).code@ by {
                assert(nv[a].code == old_view.rooms[a].code && nv[b].code == old_view.rooms[b].code);
            }
        }
        self.rooms = rooms;
    }

    /// The stored room `i`, copied.
    fn room_copy(&self, i: usize) -> (r: Room)
        requires
            i < self@.rooms.len(),
        ensures
            r@ == self@.rooms[i as int],
            room_wf(r@),
    {
        proof {
            use_type_invariant(self);
        }
        assert(self.rooms@[i as int]@ == self@.rooms[i as int]);
        self.rooms[i].clone()
    }

    /// Adds a player to a room under a validated display name.
    ///
    /// # Errors
    ///
    /// Returns an error when the room is missing, the player is already in it, or the
    /// display name is invalid.
    pub fn add_player(&mut self, input: AddPlayerInput) -> (r: Result<(Room, Player), RepoError>)
        requires
            old(self)@.room_can_bump_when(
                input.room_id@,
                |room: RoomView| player_index(room.players, input.player_id@) < 0 && spec_validate_display_name(input.display_name@) is Ok,
            ),
        ensures
            final(self)@.wf(),
            add_player_result(old(self)@, final(self)@, input, r),
    {
        proof {
            use_type_invariant(&*self);
        }
        let i = self.room_mut(&input.room_id)?;
        let mut room = self.room_copy(i);
        if find_player(&room.players, &input.player_id).is_some() {
            return Err(RepoError::PlayerAlreadyExists { room_id: input.room_id, player_id: input.player_id });
        }
        let player = match Player::new(input.player_id, input.display_name.as_str(), input.token_hash.as_str(), input.timestamp) {
            Ok(p) => p,
            Err(e) => return Err(RepoError::Domain(e)),
        };
        let ghost old_room = room@;
        proof {
            lemma_first_index(old_room.players, player_with_id(player.id@));
        }
        room.players.push(player.clone());
        room.version = room.version + 1;
        proof {
            let np = room@.players;
            assert forall|a: int, b: int|
                0 <= a < np.len() && 0 <= b < np.len() && a != b implies (#[trigger] np[a]).id@ != (#[trigger] np[b]).id@ by {
                if a == np.len() - 1 {
                    assert(!player_with_id(player.id@)(old_room.players[b]));
                } else if b == np.len() - 1 {
                    assert(!player_with_id(player.id@)(old_room.players[a]));
                }
            }
        }
        let out = room.clone();
        self.put_room(i, room);
        Ok((out, player))
    }

    /// Gives a player a new, validated display name.
    ///
    /// # Errors
    ///
    /// Returns an error when the room or the player is missing, or the display name is
    /// invalid.
    pub fn rename_player(&mut self, input: RenamePlayerInput) -> (r: Result<(Room, Player), RepoError>)
        requires
            old(self)@.room_can_bump_when(
                input.room_id@,
                |room: RoomView| player_index(room.players, input.player_id@) >= 0 && spec_validate_display_name(input.display_name@) is Ok,
            ),
        ensures
            final(self)@.wf(),
            rename_player_result(old(self)@, final(self)@, input, r),
    {
        proof {
            use_type_invariant(&*self);
        }
        let i = self.room_mut(&input.room_id)?;
        let mut room = self.room_copy(i);
        let j = match find_player(&room.players, &input.player_id) {
            Some(j) => j,
            None => return Err(RepoError::PlayerNotFound { room_id: input.room_id, player_id: input.player_id }),
        };
        let name = match validate_display_name(input.display_name.as_str()) {
            Ok(n) => n,
            Err(e) => return Err(RepoError::Domain(e)),
        };
        let mut player = room.players[j].clone();
        player.display_name = name;
        let ghost old_room = room@;
        room.players.set(j, player.clone());
        room.version = room.version + 1;
        proof {
            assert forall|a: int, b: int|
                0 <= a < room@.players.len() && 0 <= b < room@.players.len() && a != b implies (#[trigger] room@.players[a]).id@ != (#[trigger] room@.players[b]).id@ by {
                assert(room@.players[a].id == old_room.players[a].id);
                assert(room@.players[b].id == old_room.players[b].id);
            }
        }
        let out = room.clone();
        self.put_room(i, room);
        Ok((out, player))
    }

    /// Removes a player from a room; an open room also frees the player's slot.
    ///
    /// # Errors
    ///
    /// Returns an error when the room or the player is missing.
    pub fn remove_player(&mut self, input: RemovePlayerInput) -> (r: Result<Room, RepoError>)
        requires
            old(self)@.room_can_bump_when(input.room_id@, |room: RoomView| player_index(room.players, input.player_id@) >= 0),
        ensures
            final(self)@.wf(),
            remove_player_result(old(self)@, final(self)@, input, r),
    {
        proof {
            use_type_invariant(&*self);
        }
        let i = self.room_mut(&input.room_id)?;
        let mut room = self.room_copy(i);
        let j = match find_player(&room.players, &input.player_id) {
            Some(j) => j,
            None => return Err(RepoError::PlayerNotFound { room_id: input.room_id, player_id: input.player_id }),
        };
        let ghost old_room = room@;
        room.players.remove(j);
        if room.status == RoomStatus::Open {
            let mut k: usize = 0;
            while k < room.slots.len()
                invariant
                    room.players@ == old_room.players.remove(j as int),
                    room.status == old_room.status,
                    room.id == old_room.id,
                    room.code == old_room.code,
                    room.config == old_room.config,
                    room.teams@ == old_room.teams,
                    room.match_id == old_room.match_id,
                    room.version == old_room.version,
                    room.created_at == old_room.created_at,
                    room.updated_at == old_room.updated_at,
                    room@.slots.len() == old_room.slots.len(),
                    k <= old_room.slots.len(),
                    forall|a: int| 0 <= a < k ==> #[trigger] room@.slots[a] == cleared_slot(input.player_id@)(old_room.slots[a]),
                    forall|a: int| k <= a < old_room.slots.len() ==> #[trigger] room@.slots[a] == old_room.slots[a],
                decreases old_room.slots.len() - k,
            {
                if is_player(&room.slots[k].player_id, &input.player_id) {
                    let mut slot = room.slots[k].clone();
                    slot.player_id = None;
                    slot.prompt_draft = None;
                    room.slots.set(k, slot);
                }
                k = k + 1;
            }
        }
        room.version = room.version + 1;
        proof {
            let ns = room@.slots;
            if room.status == RoomStatus::Open {
                assert(ns =~= old_room.slots.map_values(cleared_slot(input.player_id@)));
            } else {
                assert(ns =~= old_room.slots);
            }
            assert forall|a: int, b: int|
                0 <= a < ns.len() && 0 <= b < ns.len() && a != b && (#[trigger] ns[a]).player_id is Some
                    && (#[trigger] ns[b]).player_id is Some implies ns[a].player_id->0@ != ns[b].player_id->0@ by {
                assert(ns[a].player_id == old_room.slots[a].player_id);
                assert(ns[b].player_id == old_room.slots[b].player_id);
            }
            let np = room@.players;
            assert forall|a: int, b: int|
                0 <= a < np.len() && 0 <= b < np.len() && a != b implies (#[trigger] np[a]).id@ != (#[trigger] np[b]).id@ by {
                let oa = if a < j { a } else { a + 1 };
                let ob = if b < j { b } else { b + 1 };
                assert(np[a] == old_room.players[oa]);
                assert(np[b] == old_room.players[ob]);
            }
        }
        let out = room.clone();
        self.put_room(i, room);
        Ok(out)
    }

    /// Claims a slot for a player of the room.
    ///
    /// # Errors
    ///
    /// Returns an error when the room or the player is missing, or the room refuses the
    /// claim.
    pub fn claim_slot(&mut self, input: ClaimSlotInput) -> (r: Result<Room, RepoError>)
        requires
            old(self)@.room_can_bump_when(
                input.room_id@,
                |room: RoomView| player_index(room.players, input.player_id@) >= 0 && claim_allowed(room, input.player_id, input.slot_id),
            ),
        ensures
            final(self)@.wf(),
            room_step_result(
                old(self)@,
                final(self)@,
                input.room_id,
                |o: RoomView, n: RoomView, res: Result<(), DomainError>| claim_slot_result(o, n, input.player_id, input.slot_id, res),
                Some(input.player_id),
                r,
            ),
    {
        proof {
            use_type_invariant(&*self);
        }
        let i = self.room_mut(&input.room_id)?;
        let mut room = self.room_copy(i);
        ensure_player_exists(&room, &input.player_id)?;
        match room.claim_slot(&input.player_id, &input.slot_id) {
            Ok(()) => {},
            Err(e) => return Err(RepoError::Domain(e)),
        }
        let out = room.clone();
        self.put_room(i, room);
        Ok(out)
    }

    /// Releases a slot the player owns.
    ///
    /// # Errors
    ///
    /// Returns an error when the room or the player is missing, or the room refuses the
    /// release.
    pub fn release_slot(&mut self, input: ReleaseSlotInput) -> (r: Result<Room, RepoError>)
        requires
            old(self)@.room_can_bump_when(
                input.room_id@,
                |room: RoomView|
                    player_index(room.players, input.player_id@) >= 0 && owner_action_error(room, input.player_id, input.slot_id, "release slot") is None,
            ),
        ensures
            final(self)@.wf(),
            room_step_result(
                old(self)@,
                final(self)@,
                input.room_id,
                |o: RoomView, n: RoomView, res: Result<(), DomainError>| release_slot_result(o, n, input.player_id, input.slot_id, res),
                Some(input.player_id),
                r,
            ),
    {
        proof {
            use_type_invariant(&*self);
        }
        let i = self.room_mut(&input.room_id)?;
        let mut room = self.room_copy(i);
        ensure_player_exists(&room, &input.player_id)?;
        match room.release_slot(&input.player_id, &input.slot_id) {
            Ok(()) => {},
            Err(e) => return Err(RepoError::Domain(e)),
        }
        let out = room.clone();
        self.put_room(i, room);
        Ok(out)
    }

    /// Updates the prompt draft of a slot the player owns.
    ///
    /// # Errors
    ///
    /// Returns an error when the room or the player is missing, or the room refuses the
    /// update.
    pub fn update_slot_prompt(&mut self, input: UpdateSlotPromptInput) -> (r: Result<Room, RepoError>)
        requires
            old(self)@.room_can_bump_when(
                input.room_id@,
                |room: RoomView|
                    player_index(room.players, input.player_id@) >= 0 && owner_action_error(room, input.player_id, input.slot_id, "update prompt") is None,
            ),
        ensures
            final(self)@.wf(),
            room_step_result(
                old(self)@,
                final(self)@,
                input.room_id,
                |o: RoomView, n: RoomView, res: Result<(), DomainError>|
                    update_prompt_result(o, n, input.player_id, input.slot_id, input.prompt@, res),
                Some(input.player_id),
                r,
            ),
    {
        proof {
            use_type_invariant(&*self);
        }
        let i = self.room_mut(&input.room_id)?;
        let mut room = self.room_copy(i);
        ensure_player_exists(&room, &input.player_id)?;
        match room.update_prompt(&input.player_id, &input.slot_id, input.prompt.as_str()) {
            Ok(()) => {},
            Err(e) => return Err(RepoError::Domain(e)),
        }
        let out = room.clone();
        self.put_room(i, room);
        Ok(out)
    }

    /// Locks a room, filling missing prompts with the roles' defaults.
    ///
    /// # Errors
    ///
    /// Returns an error when the room is missing or not open.
    pub fn lock_room(&mut self, input: LockRoomInput) -> (r: Result<Room, RepoError>)
        requires
            old(self)@.room_can_bump_when(input.room_id@, |room: RoomView| valid_transition(room.status, RoomStatus::Locked)),
        ensures
            final(self)@.wf(),
            room_step_result(
                old(self)@,
                final(self)@,
                input.room_id,
                |o: RoomView, n: RoomView, res: Result<(), DomainError>| lock_with_role_defaults_result(o, n, res),
                None,
                r,
            ),
    {
        proof {
            use_type_invariant(&*self);
        }
        let i = self.room_mut(&input.room_id)?;
        let mut room = self.room_copy(i);
        let ghost old_room = room@;
        match room.lock_with_role_defaults() {
            Ok(()) => {},
            Err(e) => return Err(RepoError::Domain(e)),
        }
        proof {
            let ns = room@.slots;
            assert forall|a: int, b: int|
                0 <= a < ns.len() && 0 <= b < ns.len() && a != b && (#[trigger] ns[a]).player_id is Some
                    && (#[trigger] ns[b]).player_id is Some implies ns[a].player_id->0@ != ns[b].player_id->0@ by {
                assert(ns[a].player_id == old_room.slots[a].player_id);
                assert(ns[b].player_id == old_room.slots[b].player_id);
            }
        }
        let out = room.clone();
        self.put_room(i, room);
        Ok(out)
    }

    /// Reopens a locked room.
    ///
    /// # Errors
    ///
    /// Returns an error when the room is missing or not locked.
    pub fn unlock_room(&mut self, room_id: &RoomId) -> (r: Result<Room, RepoError>)
        requires
            old(self)@.room_can_bump_when(room_id@, |room: RoomView| valid_transition(room.status, RoomStatus::Open)),
        ensures
            final(self)@.wf(),
            room_step_result(
                old(self)@,
                final(self)@,
                *room_id,
                |o: RoomView, n: RoomView, res: Result<(), DomainError>| status_change_result(o, n, RoomStatus::Open, res),
                None,
                r,
            ),
    {
        proof {
            use_type_invariant(&*self);
        }
        let i = self.room_mut(room_id)?;
        let mut room = self.room_copy(i);
        match room.unlock() {
            Ok(()) => {},
            Err(e) => return Err(RepoError::Domain(e)),
        }
        let out = room.clone();
        self.put_room(i, room);
        Ok(out)
    }

    /// Starts a locked room with its match.
    ///
    /// # Errors
    ///
    /// Returns an error when the room is missing, already has a match, or is not locked.
    pub fn attach_match(&mut self, room_id: &RoomId, match_id: &MatchId) -> (r: Result<Room, RepoError>)
        requires
            old(self)@.room_can_bump_when(
                room_id@,
                |room: RoomView| room.match_id is None && valid_transition(room.status, RoomStatus::Running),
            ),
        ensures
            final(self)@.wf(),
            attach_match_result(old(self)@, final(self)@, *room_id, *match_id, r),
    {
        proof {
            use_type_invariant(&*self);
        }
        let i = self.room_mut(room_id)?;
        let mut room = self.room_copy(i);
        if let Some(existing) = &room.match_id {
            return Err(RepoError::RoomMatchAlreadyExists { room_id: room_id.clone(), match_id: existing.clone() });
        }
        match room.mark_running(match_id.clone()) {
            Ok(()) => {},
            Err(e) => return Err(RepoError::Domain(e)),
        }
        let out = room.clone();
        self.put_room(i, room);
        Ok(out)
    }

    /// Sets a room's status, whatever it was.
    ///
    /// # Errors
    ///
    /// Returns an error when the room is missing.
    pub fn set_status(&mut self, room_id: &RoomId, status: RoomStatus) -> (r: Result<Room, RepoError>)
        requires
            old(self)@.room_can_bump(room_id@),
        ensures
            final(self)@.wf(),
            set_status_result(old(self)@, final(self)@, *room_id, status, r),
    {
        proof {
            use_type_invariant(&*self);
        }
        let i = self.room_mut(room_id)?;
        let mut room = self.room_copy(i);
        room.status = status;
        room.version = room.version + 1;
        let out = room.clone();
        self.put_room(i, room);
        Ok(out)
    }
}

/// The index of the player with the given identifier.
fn find_player(players: &Vec<Player>, player_id: &PlayerId) -> (r: Option<usize>)
    ensures
        match r {
            Some(j) => j < players@.len() && j == player_index(players@, player_id@),
            None => player_index(players@, player_id@) == -1,
        },
{
    let mut j: usize = 0;
    while j < players.len()
        invariant
            j <= players@.len(),
            forall|k: int| 0 <= k < j ==> !player_with_id(player_id@)(#[trigger] players@[k]),
        decreases players@.len() - j,
    {
        if players[j].id == *player_id {
            proof {
                lemma_first_index_is(players@, player_with_id(player_id@), j as int);
            }
            return Some(j);
        }
        j = j + 1;
    }
    proof {
        lemma_first_index_none(players@, player_with_id(player_id@));
    }
    None
}

/// Fails unless the player is in the room.
fn ensure_player_exists(room: &Room, player_id: &PlayerId) -> (r: Result<(), RepoError>)
    ensures
        match player_missing(room@, *player_id) {
            Some(e) => r == Err::<(), RepoError>(e),
            None => r is Ok,
        },
{
    match find_player(&room.players, player_id) {
        Some(_) => Ok(()),
        None => Err(RepoError::PlayerNotFound { room_id: room.id.clone(), player_id: player_id.clone() }),
    }
}

impl MemoryPersistence {
    /// The index of the match with the given identifier.
    fn find_match(&self, match_id: &MatchId) -> (r: Option<usize>)
        ensures
            match r {
                Some(i) => i < self@.matches.len() && i == match_index(self@.matches, match_id@),
                None => match_index(self@.matches, match_id@) == -1,
            },
    {
        let ghost mv = self@.matches;
        let mut i: usize = 0;
        while i < self.matches.len()
            invariant
                mv == self@.matches,
                mv.len() == self.matches@.len(),
                i <= mv.len(),
                forall|k: int| 0 <= k < i ==> !match_with_id(match_id@)(#[trigger] mv[k]),
            decreases mv.len() - i,
        {
            assert(mv[i as int] == self.matches@[i as int]@);
            if self.matches[i].id == *match_id {
                proof {
                    lemma_first_index_is(mv, match_with_id(match_id@), i as int);
                }
                return Some(i);
            }
            i = i + 1;
        }
        proof {
            lemma_first_index_none(mv, match_with_id(match_id@));
        }
        None
    }

    /// The index of the stored match `match_id`.
    fn match_mut(&self, match_id: &MatchId) -> (r: Result<usize, RepoError>)
        ensures
            match r {
                Ok(i) => match_lookup(self@, *match_id) == Ok::<int, RepoError>(i as int) && i < self@.matches.len(),
                Err(e) => match_lookup(self@, *match_id) == Err::<int, RepoError>(e),
            },
    {
        match self.find_match(match_id) {
            Some(i) => Ok(i),
            None => Err(RepoError::MatchNotFound { match_id: match_id.clone() }),
        }
    }

    /// Replaces match `i` by a match with the same identifier.
    fn put_match(&mut self, i: usize, m: Match)
        requires
            i < old(self)@.matches.len(),
            m@.id == old(self)@.matches[i as int].id,
        ensures
            final(self)@ == (MemoryView { matches: old(self)@.matches.update(i as int, m@), ..old(self)@ }),
    {
        proof {
            use_type_invariant(&*self);
        }
        let ghost old_view = self@;
        let ghost mv = m@;
        let mut matches: Vec<Match> = Vec::new();
        std::mem::swap(&mut matches, &mut self.matches);
        matches.set(i, m);
        proof {
            let nv = matches@.map_values(|x: Match| x@);
            assert(nv =~= old_view.matches.update(i as int, mv));
            assert forall|a: int, b: int| 0 <= a < nv.len() && 0 <= b < nv.len() && a != b implies (#[trigger] nv[a]).id@ != (#[trigger] nv[b]).id@ by {
                assert(nv[a].id == old_view.matches[a].id && nv[b].id == old_view.matches[b].id);
            }
        }
        self.matches = matches;
    }

    /// The stored match `i`, copied.
    fn match_copy(&self, i: usize) -> (r: Match)
        requires
            i < self@.matches.len(),
        ensures
            r@ == self@.matches[i as int],
    {
        assert(self.matches@[i as int]@ == self@.matches[i as int]);
        self.matches[i].clone()
    }

    /// Creates a match.
    ///
    /// # Errors
    ///
    /// Returns an error when a match with the same identifier exists.
    pub fn create_match(&mut self, input: CreateMatchInput) -> (r: Result<Match, RepoError>)
        ensures
            final(self)@.wf(),
            match_index(old(self)@.matches, input.match_id@) >= 0 ==> r == Err::<Match, RepoError>(
                RepoError::MatchAlreadyExists { match_id: input.match_id },
            ) && final(self)@ == old(self)@,
            match_index(old(self)@.matches, input.match_id@) < 0 ==> {
                &&& r is Ok
                &&& r->Ok_0@ == (MatchView {
                    id: input.match_id,
                    room_id: input.room_id,
                    status: MatchStatus::Created,
                    config_snapshot: input.config_snapshot@,
                    current_turn: 0,
                    result: None,
                    created_at: input.timestamp,
                    started_at: None,
                    finished_at: None,
                })
                &&& final(self)@ == (MemoryView { matches: old(self)@.matches.push(r->Ok_0@), ..old(self)@ })
            },
    {
        proof {
            use_type_invariant(&*self);
        }
        if self.find_match(&input.match_id).is_some() {
            return Err(RepoError::MatchAlreadyExists { match_id: input.match_id });
        }
        let ghost old_view = self@;
        let game_match = Match::new(input.match_id, input.room_id, input.config_snapshot, input.timestamp);
        let out = game_match.clone();
        proof {
            lemma_first_index(old_view.matches, match_with_id(game_match@.id@));
            let nv = old_view.matches.push(game_match@);
            assert forall|a: int, b: int| 0 <= a < nv.len() && 0 <= b < nv.len() && a != b implies (#[trigger] nv[a]).id@ != (#[trigger] nv[b]).id@ by {
                if a == nv.len() - 1 {
                    assert(!match_with_id(game_match@.id@)(nv[b]));
                } else if b == nv.len() - 1 {
                    assert(!match_with_id(game_match@.id@)(nv[a]));
                }
            }
        }
        let mut matches: Vec<Match> = Vec::new();
        std::mem::swap(&mut matches, &mut self.matches);
        matches.push(game_match);
        assert(matches@.map_values(|x: Match| x@) =~= old_view.matches.push(out@));
        self.matches = matches;
        Ok(out)
    }

    /// The match with the given identifier, if stored.
    ///
    /// # Errors
    ///
    /// Never fails; the error is part of the repository interface.
    pub fn get_match(&self, match_id: &MatchId) -> (r: Result<Option<Match>, RepoError>)
        ensures
            r is Ok,
            match_index(self@.matches, match_id@) < 0 ==> r == Ok::<Option<Match>, RepoError>(None),
            match_index(self@.matches, match_id@) >= 0 ==> r is Ok && r->Ok_0 is Some && r->Ok_0->0@ == self@.matches[match_index(self@.matches, match_id@)],
    {
        match self.find_match(match_id) {
            Some(i) => Ok(Some(self.match_copy(i))),
            None => Ok(None),
        }
    }

    /// The first stored match of the given room, if any.
    ///
    /// # Errors
    ///
    /// Never fails; the error is part of the repository interface.
    pub fn get_match_by_room_id(&self, room_id: &RoomId) -> (r: Result<Option<Match>, RepoError>)
        ensures
            r is Ok,
            first_index(self@.matches, match_of_room(room_id@)) < 0 ==> r == Ok::<Option<Match>, RepoError>(None),
            first_index(self@.matches, match_of_room(room_id@)) >= 0 ==> r is Ok && r->Ok_0 is Some
                && r->Ok_0->0@ == self@.matches[first_index(self@.matches, match_of_room(room_id@))],
    {
        let ghost mv = self@.matches;
        let mut i: usize = 0;
        while i < self.matches.len()
            invariant
                mv == self@.matches,
                mv.len() == self.matches@.len(),
                i <= mv.len(),
                forall|k: int| 0 <= k < i ==> !match_of_room(room_id@)(#[trigger] mv[k]),
            decreases mv.len() - i,
        {
            assert(mv[i as int] == self.matches@[i as int]@);
            if self.matches[i].room_id == *room_id {
                proof {
                    lemma_first_index_is(mv, match_of_room(room_id@), i as int);
                }
                return Ok(Some(self.match_copy(i)));
            }
            i = i + 1;
        }
        proof {
            lemma_first_index_none(mv, match_of_room(room_id@));
        }
        Ok(None)
    }

    /// Marks a match as running; it counts as started when it was created.
    ///
    /// # Errors
    ///
    /// Returns an error when the match is missing.
    pub fn set_running(&mut self, match_id: &MatchId) -> (r: Result<Match, RepoError>)
        ensures
            final(self)@.wf(),
            match_step_result(
                old(self)@,
                final(self)@,
                *match_id,
                running_step(),
                r,
            ),
    {
        proof {
            use_type_invariant(&*self);
        }
        let i = self.match_mut(match_id)?;
        let mut game_match = self.match_copy(i);
        game_match.status = MatchStatus::Running;
        game_match.started_at = Some(game_match.created_at);
        let out = game_match.clone();
        self.put_match(i, game_match);
        Ok(out)
    }

    /// Marks a match as finished with its result.
    ///
    /// # Errors
    ///
    /// Returns an error when the match is missing.
    pub fn set_finished(&mut self, match_id: &MatchId, result: MatchResult) -> (r: Result<Match, RepoError>)
        ensures
            final(self)@.wf(),
            match_step_result(
                old(self)@,
                final(self)@,
                *match_id,
                finished_step(result@),
                r,
            ),
            r is Ok ==> r->Ok_0@.status == MatchStatus::Finished && r->Ok_0@.finished_at is Some,
    {
        proof {
            use_type_invariant(&*self);
        }
        let i = self.match_mut(match_id)?;
        let mut game_match = self.match_copy(i);
        game_match.status = MatchStatus::Finished;
        game_match.result = Some(result);
        game_match.finished_at = Some(match game_match.started_at {
            Some(t) => t,
            None => game_match.created_at,
        });
        let out = game_match.clone();
        self.put_match(i, game_match);
        Ok(out)
    }

    /// Marks a match as failed, with an empty failed result.
    ///
    /// # Errors
    ///
    /// Returns an error when the match is missing.
    pub fn set_failed(&mut self, match_id: &MatchId, error: MatchError) -> (r: Result<Match, RepoError>)
        ensures
            final(self)@.wf(),
            match_step_result(
                old(self)@,
                final(self)@,
                *match_id,
                failed_step(),
                r,
            ),
            r is Ok ==> r->Ok_0@.status == MatchStatus::Failed && r->Ok_0@.finished_at is Some,
    {
        proof {
            use_type_invariant(&*self);
        }
        let i = self.match_mut(match_id)?;
        let mut game_match = self.match_copy(i);
        game_match.status = MatchStatus::Failed;
        game_match.result = Some(MatchResult { winner: None, score: HashMap::new(), reason: MatchEndReason::Failed });
        game_match.finished_at = Some(match game_match.started_at {
            Some(t) => t,
            None => game_match.created_at,
        });
        let out = game_match.clone();
        self.put_match(i, game_match);
        Ok(out)
    }

    /// Sets the turn a match is at.
    ///
    /// # Errors
    ///
    /// Returns an error when the match is missing.
    pub fn update_current_turn(&mut self, match_id: &MatchId, turn: u32) -> (r: Result<Match, RepoError>)
        ensures
            final(self)@.wf(),
            match_step_result(old(self)@, final(self)@, *match_id, turn_step(turn), r),
    {
        proof {
            use_type_invariant(&*self);
        }
        let i = self.match_mut(match_id)?;
        let mut game_match = self.match_copy(i);
        game_match.current_turn = turn;
        let out = game_match.clone();
        self.put_match(i, game_match);
        Ok(out)
    }

    /// Stores an event.
    ///
    /// # Errors
    ///
    /// Never fails; the error is part of the repository interface.
    pub fn append_event(&mut self, event: GameEvent) -> (r: Result<(), RepoError>)
        ensures
            r is Ok,
            final(self)@.wf(),
            final(self)@ == (MemoryView { events: old(self)@.events.push(event), ..old(self)@ }),
    {
        proof {
            use_type_invariant(&*self);
        }
        let mut events: Vec<GameEvent> = Vec::new();
        std::mem::swap(&mut events, &mut self.game_events);
        events.push(event);
        self.game_events = events;
        Ok(())
    }

    /// Stores events, in order.
    ///
    /// # Errors
    ///
    /// Never fails; the error is part of the repository interface.
    pub fn append_events(&mut self, events: Vec<GameEvent>) -> (r: Result<(), RepoError>)
        ensures
            r is Ok,
            final(self)@.wf(),
            final(self)@ == (MemoryView { events: old(self)@.events + events@, ..old(self)@ }),
    {
        proof {
            use_type_invariant(&*self);
        }
        let ghost old_events = self@.events;
        let mut stored: Vec<GameEvent> = Vec::new();
        std::mem::swap(&mut stored, &mut self.game_events);
        let mut i: usize = 0;
        while i < events.len()
            invariant
                i <= events@.len(),
                stored@ == old_events + events@.take(i as int),
            decreases events@.len() - i,
        {
            stored.push(events[i].clone());
            assert(events@.take(i + 1) =~= events@.take(i as int).push(events@[i as int]));
            i = i + 1;
        }
        assert(events@.take(events@.len() as int) =~= events@);
        self.game_events = stored;
        Ok(())
    }

    /// The events of a match, in the order they were stored.
    ///
    /// # Errors
    ///
    /// Never fails; the error is part of the repository interface.
    pub fn list_events_by_match(&self, match_id: &MatchId) -> (r: Result<Vec<GameEvent>, RepoError>)
        ensures
            r is Ok,
            r->Ok_0@ == self@.events.filter(event_of_match(match_id@)),
    {
        let ghost ev = self@.events;
        let ghost p = event_of_match(match_id@);
        let mut out: Vec<GameEvent> = Vec::new();
        let mut i: usize = 0;
        while i < self.game_events.len()
            invariant
                ev == self@.events,
                ev == self.game_events@,
                p == event_of_match(match_id@),
                i <= ev.len(),
                out@ == ev.take(i as int).filter(p),
            decreases ev.len() - i,
        {
            proof {
                lemma_filter_take_step(ev, p, i as int);
            }
            if self.game_events[i].match_id == *match_id {
                out.push(self.game_events[i].clone());
            }
            i = i + 1;
        }
        assert(ev.take(ev.len() as int) =~= ev);
        Ok(out)
    }

    /// The events of one turn of a match, in the order they were stored.
    ///
    /// # Errors
    ///
    /// Never fails; the error is part of the repository interface.
    pub fn list_events_by_turn(&self, match_id: &MatchId, turn: u32) -> (r: Result<Vec<GameEvent>, RepoError>)
        ensures
            r is Ok,
            r->Ok_0@ == self@.events.filter(event_of_turn(match_id@, turn)),
    {
        let ghost ev = self@.events;
        let ghost p = event_of_turn(match_id@, turn);
        let mut out: Vec<GameEvent> = Vec::new();
        let mut i: usize = 0;
        while i < self.game_events.len()
            invariant
                ev == self@.events,
                ev == self.game_events@,
                p == event_of_turn(match_id@, turn),
                i <= ev.len(),
                out@ == ev.take(i as int).filter(p),
            decreases ev.len() - i,
        {
            proof {
                lemma_filter_take_step(ev, p, i as int);
            }
            if self.game_events[i].match_id == *match_id && self.game_events[i].turn == turn {
                out.push(self.game_events[i].clone());
            }
            i = i + 1;
        }
        assert(ev.take(ev.len() as int) =~= ev);
        Ok(out)
    }

    /// Stores a snapshot: it replaces the snapshot of the same match and turn, or joins the
    /// snapshots of its match in turn order.
    ///
    /// # Errors
    ///
    /// Never fails; the error is part of the repository interface.
    pub fn save_snapshot(&mut self, snapshot: GameStateSnapshot) -> (r: Result<(), RepoError>)
        ensures
            r is Ok,
            final(self)@.wf(),
            final(self)@ == (MemoryView { snapshots: saved_snapshots(old(self)@.snapshots, snapshot@), ..old(self)@ }),
    {
        proof {
            use_type_invariant(&*self);
        }
        let ghost sv = self@.snapshots;
        let ghost s = snapshot@;
        let ghost at = snapshot_at(s.match_id@, s.turn);
        let ghost after = snapshot_after(s.match_id@, s.turn);
        let mut found: Option<usize> = None;
        let mut pos: Option<usize> = None;
        let mut i: usize = 0;
        while i < self.game_states.len() && found.is_none()
            invariant
                sv == self@.snapshots,
                sv.len() == self.game_states@.len(),
                s == snapshot@,
                at == snapshot_at(s.match_id@, s.turn),
                after == snapshot_after(s.match_id@, s.turn),
                i <= sv.len(),
                match found {
                    Some(k) => k < sv.len() && k == first_index(sv, at),
                    None => forall|k: int| 0 <= k < i ==> !at(#[trigger] sv[k]),
                },
                match pos {
                    Some(p) => p < i && p == first_index(sv, after),
                    None => forall|k: int| 0 <= k < i ==> !after(#[trigger] sv[k]),
                },
            decreases sv.len() - i,
        {
            assert(sv[i as int] == self.game_states@[i as int]@);
            let same_match = self.game_states[i].match_id == snapshot.match_id;
            if same_match && self.game_states[i].turn == snapshot.turn {
                proof {
                    lemma_first_index_is(sv, at, i as int);
                }
                found = Some(i);
            } else if pos.is_none() && same_match && self.game_states[i].turn > snapshot.turn {
                proof {
                    lemma_first_index_is(sv, after, i as int);
                }
                pos = Some(i);
            }
            i = i + 1;
        }
        let mut states: Vec<GameStateSnapshot> = Vec::new();
        std::mem::swap(&mut states, &mut self.game_states);
        match found {
            Some(k) => {
                states.set(k, snapshot);
                proof {
                    lemma_first_index(sv, at);
                    assert(at(sv[k as int]));
                    let nv = states@.map_values(|x: GameStateSnapshot| x@);
                    assert(nv =~= sv.update(k as int, s));
                    assert forall|a: int, b: int|
                        0 <= a < b < nv.len() && (#[trigger] nv[a]).match_id@ == (#[trigger] nv[b]).match_id@ implies nv[a].turn < nv[b].turn by {
                        if a == k {
                            assert(nv[a] == s);
                        } else {
                            assert(nv[a] == sv[a]);
                        }
                        if b == k {
                            assert(nv[b] == s);
                        } else {
                            assert(nv[b] == sv[b]);
                        }
                        assert(nv[a].match_id@ == sv[a].match_id@ && nv[a].turn == sv[a].turn);
                        assert(nv[b].match_id@ == sv[b].match_id@ && nv[b].turn == sv[b].turn);
                    }
                }
            },
            None => {
                proof {
                    lemma_first_index_none(sv, at);
                    if pos is None {
                        lemma_first_index_none(sv, after);
                    }
                }
                let p = match pos {
                    Some(p) => p,
                    None => states.len(),
                };
                states.insert(p, snapshot);
                proof {
                    lemma_first_index(sv, after);
                    let nv = states@.map_values(|x: GameStateSnapshot| x@);
                    assert(nv =~= sv.insert(p as int, s));
                    assert forall|a: int, b: int|
                        0 <= a < b < nv.len() && (#[trigger] nv[a]).match_id@ == (#[trigger] nv[b]).match_id@ implies nv[a].turn < nv[b].turn by {
                        if a < p && b < p {
                            assert(nv[a] == sv[a] && nv[b] == sv[b]);
                        } else if a < p && b == p {
                            assert(nv[a] == sv[a]);
                            assert(!after(sv[a]));
                            assert(!at(sv[a]));
                        } else if a < p {
                            assert(nv[a] == sv[a] && nv[b] == sv[b - 1]);
                        } else if a == p {
                            assert(nv[b] == sv[b - 1]);
                            assert(after(sv[p as int]));
                            if b - 1 > p {
                                assert(sv[p as int].turn < sv[b - 1].turn);
                            }
                        } else {
                            assert(nv[a] == sv[a - 1] && nv[b] == sv[b - 1]);
                        }
                    }
                }
            },
        }
        self.game_states = states;
        Ok(())
    }

    /// The snapshot of one turn of a match, if stored.
    ///
    /// # Errors
    ///
    /// Never fails; the error is part of the repository interface.
    pub fn get_snapshot(&self, match_id: &MatchId, turn: u32) -> (r: Result<Option<GameStateSnapshot>, RepoError>)
        ensures
            r is Ok,
            first_index(self@.snapshots, snapshot_at(match_id@, turn)) < 0 ==> r == Ok::<Option<GameStateSnapshot>, RepoError>(None),
            first_index(self@.snapshots, snapshot_at(match_id@, turn)) >= 0 ==> r is Ok && r->Ok_0 is Some
                && r->Ok_0->0@ == self@.snapshots[first_index(self@.snapshots, snapshot_at(match_id@, turn))],
    {
        let ghost sv = self@.snapshots;
        let ghost at = snapshot_at(match_id@, turn);
        let mut i: usize = 0;
        while i < self.game_states.len()
            invariant
                sv == self@.snapshots,
                sv.len() == self.game_states@.len(),
                at == snapshot_at(match_id@, turn),
                i <= sv.len(),
                forall|k: int| 0 <= k < i ==> !at(#[trigger] sv[k]),
            decreases sv.len() - i,
        {
            assert(sv[i as int] == self.game_states@[i as int]@);
            if self.game_states[i].match_id == *match_id && self.game_states[i].turn == turn {
                proof {
                    lemma_first_index_is(sv, at, i as int);
                }
                return Ok(Some(self.game_states[i].clone()));
            }
            i = i + 1;
        }
        proof {
            lemma_first_index_none(sv, at);
        }
        Ok(None)
    }

    /// The snapshots of a match, in turn order.
    ///
    /// # Errors
    ///
    /// Never fails; the error is part of the repository interface.
    pub fn list_snapshots(&self, match_id: &MatchId) -> (r: Result<Vec<GameStateSnapshot>, RepoError>)
        ensures
            r is Ok,
            r->Ok_0@.map_values(|x: GameStateSnapshot| x@) == self@.snapshots.filter(snapshot_of_match(match_id@)),
            snapshots_ordered(self@.snapshots),
    {
        proof {
            use_type_invariant(self);
        }
        let ghost sv = self@.snapshots;
        let ghost p = snapshot_of_match(match_id@);
        let mut out: Vec<GameStateSnapshot> = Vec::new();
        let mut i: usize = 0;
        while i < self.game_states.len()
            invariant
                sv == self@.snapshots,
                sv.len() == self.game_states@.len(),
                p == snapshot_of_match(match_id@),
                i <= sv.len(),
                out@.map_values(|x: GameStateSnapshot| x@) == sv.take(i as int).filter(p),
            decreases sv.len() - i,
        {
            proof {
                lemma_filter_take_step(sv, p, i as int);
            }
            assert(sv[i as int] == self.game_states@[i as int]@);
            if self.game_states[i].match_id == *match_id {
                let ghost before = out@.map_values(|x: GameStateSnapshot| x@);
                let c = self.game_states[i].clone();
                out.push(c);
                assert(out@.map_values(|x: GameStateSnapshot| x@) =~= before.push(sv[i as int]));
            }
            i = i + 1;
        }
        assert(sv.take(sv.len() as int) =~= sv);
        Ok(out)
    }

    /// Stores a decision record.
    ///
    /// # Errors
    ///
    /// Never fails; the error is part of the repository interface.
    pub fn save_decision(&mut self, decision: AgentDecisionLog) -> (r: Result<(), RepoError>)
        ensures
            r is Ok,
            final(self)@.wf(),
            final(self)@ == (MemoryView { decisions: old(self)@.decisions.push(decision@), ..old(self)@ }),
    {
        proof {
            use_type_invariant(&*self);
        }
        let ghost old_view = self@;
        let ghost dv = decision@;
        let mut decisions: Vec<AgentDecisionLog> = Vec::new();
        std::mem::swap(&mut decisions, &mut self.agent_decisions);
        decisions.push(decision);
        assert(decisions@.map_values(|x: AgentDecisionLog| x@) =~= old_view.decisions.push(dv));
        self.agent_decisions = decisions;
        Ok(())
    }

    /// The decision records of a match, in the order they were stored.
    ///
    /// # Errors
    ///
    /// Never fails; the error is part of the repository interface.
    pub fn list_decisions_by_match(&self, match_id: &MatchId) -> (r: Result<Vec<AgentDecisionLog>, RepoError>)
        ensures
            r is Ok,
            r->Ok_0@.map_values(|x: AgentDecisionLog| x@) == self@.decisions.filter(decision_of_match(match_id@)),
    {
        let ghost dv = self@.decisions;
        let ghost p = decision_of_match(match_id@);
        let mut out: Vec<AgentDecisionLog> = Vec::new();
        let mut i: usize = 0;
        while i < self.agent_decisions.len()
            invariant
                dv == self@.decisions,
                dv.len() == self.agent_decisions@.len(),
                p == decision_of_match(match_id@),
                i <= dv.len(),
                out@.map_values(|x: AgentDecisionLog| x@) == dv.take(i as int).filter(p),
            decreases dv.len() - i,
        {
            proof {
                lemma_filter_take_step(dv, p, i as int);
            }
            assert(dv[i as int] == self.agent_decisions@[i as int]@);
            if self.agent_decisions[i].match_id == *match_id {
                let ghost before = out@.map_values(|x: AgentDecisionLog| x@);
                let c = self.agent_decisions[i].clone();
                out.push(c);
                assert(out@.map_values(|x: AgentDecisionLog| x@) =~= before.push(dv[i as int]));
            }
            i = i + 1;
        }
        assert(dv.take(dv.len() as int) =~= dv);
        Ok(out)
    }

    /// The decision records of one agent of a match, in the order they were stored.
    ///
    /// # Errors
    ///
    /// Never fails; the error is part of the repository interface.
    pub fn list_decisions_by_agent(&self, match_id: &MatchId, agent_id: &AgentId) -> (r: Result<Vec<AgentDecisionLog>, RepoError>)
        ensures
            r is Ok,
            r->Ok_0@.map_values(|x: AgentDecisionLog| x@) == self@.decisions.filter(decision_of_agent(match_id@, agent_id@)),
    {
        let ghost dv = self@.decisions;
        let ghost p = decision_of_agent(match_id@, agent_id@);
        let mut out: Vec<AgentDecisionLog> = Vec::new();
        let mut i: usize = 0;
        while i < self.agent_decisions.len()
            invariant
                dv == self@.decisions,
                dv.len() == self.agent_decisions@.len(),
                p == decision_of_agent(match_id@, agent_id@),
                i <= dv.len(),
                out@.map_values(|x: AgentDecisionLog| x@) == dv.take(i as int).filter(p),
            decreases dv.len() - i,
        {
            proof {
                lemma_filter_take_step(dv, p, i as int);
            }
            assert(dv[i as int] == self.agent_decisions@[i as int]@);
            if self.agent_decisions[i].match_id == *match_id && self.agent_decisions[i].agent_id == *agent_id {
                let ghost before = out@.map_values(|x: AgentDecisionLog| x@);
                let c = self.agent_decisions[i].clone();
                out.push(c);
                assert(out@.map_values(|x: AgentDecisionLog| x@) =~= before.push(dv[i as int]));
            }
            i = i + 1;
        }
        assert(dv.take(dv.len() as int) =~= dv);
        Ok(out)
    }

    /// Appends an entry to the admin audit log.
    ///
    /// # Errors
    ///
    /// Never fails; the error is part of the repository interface.
    pub fn append_audit_log(&mut self, log: AdminAuditLog) -> (r: Result<(), RepoError>)
        ensures
            r is Ok,
            final(self)@.wf(),
            final(self)@ == (MemoryView { audit_logs: old(self)@.audit_logs.push(log), ..old(self)@ }),
    {
        proof {
            use_type_invariant(&*self);
        }
        let mut logs: Vec<AdminAuditLog> = Vec::new();
        std::mem::swap(&mut logs, &mut self.admin_audit_logs);
        logs.push(log);
        self.admin_audit_logs = logs;
        Ok(())
    }

    /// The admin audit log, oldest entry first.
    ///
    /// # Errors
    ///
    /// Never fails; the error is part of the repository interface.
    pub fn list_audit_logs(&self) -> (r: Result<Vec<AdminAuditLog>, RepoError>)
        ensures
            r is Ok,
            r->Ok_0@ == self@.audit_logs,
    {
        let out = self.admin_audit_logs.clone();
        assert(out@ =~= self.admin_audit_logs@);
        Ok(out)
    }
}

// ---------------------------------------------------------------------------
// Laws of the store.
// ---------------------------------------------------------------------------

/// A room that was just created is found under its identifier.
pub proof fn law_created_room_is_found(old: MemoryView, new: MemoryView, input: CreateRoomInput, r: Result<Room, RepoError>)
    requires
        create_room_result(old, new, input, r),
        r is Ok,
    ensures
        room_index(new.rooms, input.room_id@) >= 0,
        new.rooms[room_index(new.rooms, input.room_id@)] == r->Ok_0@,
{
    let id = input.room_id@;
    let p = insert_position(old.rooms, id);
    lemma_first_index(old.rooms, room_with_id(id));
    lemma_first_index(old.rooms, room_after(id));
    let nr = new.rooms;
    assert(nr =~= old.rooms.insert(p, r->Ok_0@));
    assert forall|k: int| 0 <= k < p implies !room_with_id(id)(#[trigger] nr[k]) by {
        assert(nr[k] == old.rooms[k]);
    }
    lemma_first_index_is(nr, room_with_id(id), p);
}

/// A player who just joined is the last player of the room, and the stored room is
/// the one returned.
pub proof fn law_joined_player_is_listed(
    old: MemoryView,
    new: MemoryView,
    input: AddPlayerInput,
    r: Result<(Room, Player), RepoError>,
)
    requires
        add_player_result(old, new, input, r),
        r is Ok,
    ensures
        player_index(r->Ok_0.0@.players, input.player_id@) == r->Ok_0.0@.players.len() - 1,
        r->Ok_0.0@.players.last() == r->Ok_0.1,
        room_index(new.rooms, input.room_id@) >= 0,
        new.rooms[room_index(new.rooms, input.room_id@)] == r->Ok_0.0@,
{
    let i = room_index(old.rooms, input.room_id@);
    let room = old.rooms[i];
    let players = r->Ok_0.0@.players;
    lemma_first_index(old.rooms, room_with_id(input.room_id@));
    lemma_first_index(room.players, player_with_id(input.player_id@));
    assert forall|k: int| 0 <= k < players.len() - 1 implies !player_with_id(input.player_id@)(#[trigger] players[k]) by {
        assert(players[k] == room.players[k]);
    }
    lemma_first_index_is(players, player_with_id(input.player_id@), players.len() - 1);
    lemma_first_index_update(old.rooms, room_with_id(input.room_id@), i, r->Ok_0.0@);
}

/// A player who left is no longer in the room, and in an open room holds no slot.
pub proof fn law_left_player_is_gone(old: MemoryView, new: MemoryView, input: RemovePlayerInput, r: Result<Room, RepoError>)
    requires
        old.wf(),
        remove_player_result(old, new, input, r),
        r is Ok,
    ensures
        player_index(r->Ok_0@.players, input.player_id@) < 0,
        r->Ok_0@.status == RoomStatus::Open ==> owned_slot_index(r->Ok_0@.slots, input.player_id@) < 0,
{
    let i = room_index(old.rooms, input.room_id@);
    let room = old.rooms[i];
    let pid = input.player_id@;
    let j = player_index(room.players, pid);
    lemma_first_index(old.rooms, room_with_id(input.room_id@));
    lemma_first_index(room.players, player_with_id(pid));
    assert(room_wf(old.rooms[i]));
    let players = r->Ok_0@.players;
    assert forall|k: int| 0 <= k < players.len() implies !player_with_id(pid)(#[trigger] players[k]) by {
        if k < j {
            assert(players[k] == room.players[k]);
        } else {
            assert(players[k] == room.players[k + 1]);
            assert(room.players[j].id@ == pid);
        }
    }
    lemma_first_index_none(players, player_with_id(pid));
    if r->Ok_0@.status == RoomStatus::Open {
        let slots = r->Ok_0@.slots;
        assert forall|k: int| 0 <= k < slots.len() implies !slot_owned_by(pid)(#[trigger] slots[k]) by {
            assert(slots[k] == cleared_slot(pid)(room.slots[k]));
        }
        lemma_first_index_none(slots, slot_owned_by(pid));
    }
}

/// A saved snapshot is what reading its match and turn gives back.
pub proof fn law_saved_snapshot_is_found(snaps: Seq<GameStateSnapshotView>, s: GameStateSnapshotView)
    ensures
        first_index(saved_snapshots(snaps, s), snapshot_at(s.match_id@, s.turn)) >= 0,
        saved_snapshots(snaps, s)[first_index(saved_snapshots(snaps, s), snapshot_at(s.match_id@, s.turn))] == s,
{
    let at = snapshot_at(s.match_id@, s.turn);
    let i = first_index(snaps, at);
    lemma_first_index(snaps, at);
    let saved = saved_snapshots(snaps, s);
    if i >= 0 {
        assert(saved[i] == s);
        assert forall|k: int| 0 <= k < i implies !at(#[trigger] saved[k]) by {
            assert(saved[k] == snaps[k]);
        }
        lemma_first_index_is(saved, at, i);
    } else {
        let p = snapshot_position(snaps, s.match_id@, s.turn);
        lemma_first_index(snaps, snapshot_after(s.match_id@, s.turn));
        assert(0 <= p <= snaps.len());
        assert(saved[p] == s);
        assert forall|k: int| 0 <= k < p implies !at(#[trigger] saved[k]) by {
            assert(saved[k] == snaps[k]);
        }
        lemma_first_index_is(saved, at, p);
    }
}

/// An appended event comes last among the events of its match.
pub proof fn law_appended_event_is_listed_last(events: Seq<GameEvent>, event: GameEvent)
    ensures
        events.push(event).filter(event_of_match(event.match_id@)) == events.filter(event_of_match(event.match_id@)).push(
            event,
        ),
{
    reveal(Seq::filter);
    assert(events.push(event).drop_last() =~= events);
}

/// A room operation that is refused leaves the store as it was.
pub proof fn law_refused_room_change_keeps_store(
    old: MemoryView,
    new: MemoryView,
    room_id: RoomId,
    step: spec_fn(RoomView, RoomView, Result<(), DomainError>) -> bool,
    needs_player: Option<PlayerId>,
    r: Result<Room, RepoError>,
)
    requires
        room_step_result(old, new, room_id, step, needs_player, r),
        r is Err,
    ensures
        new == old,
{
}

/// Finishing a match succeeds exactly when the match is stored. The match it returns,
/// which replaces the stored one, is finished with the given result at the time it
/// started, or at the time it was created if it never started; the rest is unchanged.
pub proof fn law_finished_match_has_finish_time(
    old: MemoryView,
    new: MemoryView,
    id: MatchId,
    result: MatchResultView,
    r: Result<Match, RepoError>,
)
    requires
        match_step_result(old, new, id, finished_step(result), r),
    ensures
        r is Ok <==> exists|k: int| 0 <= k < old.matches.len() && (#[trigger] old.matches[k]).id@ == id@,
        r is Ok ==> {
            let m = old.matches[match_index(old.matches, id@)];
            &&& m.id@ == id@
            &&& r->Ok_0@.status == MatchStatus::Finished
            &&& r->Ok_0@.result == Some(result)
            &&& r->Ok_0@.finished_at == Some(
                match m.started_at {
                    Some(t) => t,
                    None => m.created_at,
                },
            )
            &&& r->Ok_0@.id == m.id && r->Ok_0@.room_id == m.room_id
            &&& r->Ok_0@.created_at == m.created_at && r->Ok_0@.started_at == m.started_at
            &&& r->Ok_0@.current_turn == m.current_turn
        },
{
    lemma_first_index(old.matches, match_with_id(id@));
}

/// Failing a match succeeds exactly when the match is stored. The match it returns is
/// failed with an empty result, at the time it started, or at the time it was created
/// if it never started; the rest is unchanged.
pub proof fn law_failed_match_has_finish_time(old: MemoryView, new: MemoryView, id: MatchId, r: Result<Match, RepoError>)
    requires
        match_step_result(old, new, id, failed_step(), r),
    ensures
        r is Ok <==> exists|k: int| 0 <= k < old.matches.len() && (#[trigger] old.matches[k]).id@ == id@,
        r is Ok ==> {
            let m = old.matches[match_index(old.matches, id@)];
            &&& m.id@ == id@
            &&& r->Ok_0@.status == MatchStatus::Failed
            &&& r->Ok_0@.result is Some && r->Ok_0@.result->0.winner is None
            &&& r->Ok_0@.result->0.reason == MatchEndReason::Failed
            &&& r->Ok_0@.finished_at == Some(
                match m.started_at {
                    Some(t) => t,
                    None => m.created_at,
                },
            )
            &&& r->Ok_0@.id == m.id && r->Ok_0@.room_id == m.room_id
            &&& r->Ok_0@.created_at == m.created_at && r->Ok_0@.started_at == m.started_at
            &&& r->Ok_0@.current_turn == m.current_turn
        },
{
    lemma_first_index(old.matches, match_with_id(id@));
}

/// Leaving an open room frees every slot the player held: the slot has no owner and no
/// prompt draft left, and keeps its identifier, team, role and locked prompt. The other
/// slots are untouched, and in a room that is not open no slot changes.
pub proof fn law_leaving_open_room_clears_held_slots(
    old: MemoryView,
    new: MemoryView,
    input: RemovePlayerInput,
    r: Result<Room, RepoError>,
)
    requires
        remove_player_result(old, new, input, r),
        r is Ok,
    ensures
        ({
            let room = old.rooms[room_index(old.rooms, input.room_id@)];
            let slots = r->Ok_0@.slots;
            &&& slots.len() == room.slots.len()
            &&& room.status != RoomStatus::Open ==> slots == room.slots
            &&& room.status == RoomStatus::Open ==> forall|k: int|
                0 <= k < room.slots.len() ==> if (#[trigger] room.slots[k]).player_id is Some
                    && room.slots[k].player_id->0@ == input.player_id@ {
                    &&& slots[k].player_id is None
                    &&& slots[k].prompt_draft is None
                    &&& slots[k].id == room.slots[k].id
                    &&& slots[k].team_id == room.slots[k].team_id
                    &&& slots[k].role == room.slots[k].role
                    &&& slots[k].locked_prompt == room.slots[k].locked_prompt
                } else {
                    slots[k] == room.slots[k]
                }
        }),
{
    let room = old.rooms[room_index(old.rooms, input.room_id@)];
    let slots = r->Ok_0@.slots;
    if room.status == RoomStatus::Open {
        assert forall|k: int| 0 <= k < room.slots.len() implies slots[k] == cleared_slot(input.player_id@)(
            #[trigger] room.slots[k],
        ) by {}
    }
}

/// Narrowing the decisions of a match to one agent gives the decisions of that agent in
/// that match.
proof fn lemma_agent_filter_of_match_filter(decisions: Seq<AgentDecisionLogView>, match_id: Seq<char>, agent_id: Seq<char>)
    ensures
        decisions.filter(decision_of_agent(match_id, agent_id)) == decisions.filter(decision_of_match(match_id)).filter(
            decision_by_agent(agent_id),
        ),
    decreases decisions.len(),
{
    reveal(Seq::filter);
    if decisions.len() > 0 {
        lemma_agent_filter_of_match_filter(decisions.drop_last(), match_id, agent_id);
        let m = decisions.filter(decision_of_match(match_id));
        if decision_of_match(match_id)(decisions.last()) {
            assert(m.drop_last() == decisions.drop_last().filter(decision_of_match(match_id)));
        }
    } else {
        assert(decisions.filter(decision_of_match(match_id)) =~= Seq::<AgentDecisionLogView>::empty());
    }
}

/// The decisions listed for an agent of a match are exactly those stored for that agent
/// in that match: each listed one belongs to both, and each stored one that does is listed.
/// They are the decisions listed for the match, narrowed to the agent.
pub proof fn law_agent_decisions_belong_to_match_and_agent(
    decisions: Seq<AgentDecisionLogView>,
    match_id: MatchId,
    agent_id: AgentId,
    listed: Seq<AgentDecisionLogView>,
)
    requires
        listed == decisions.filter(decision_of_agent(match_id@, agent_id@)),
    ensures
        listed.len() <= decisions.len(),
        forall|i: int| 0 <= i < listed.len() ==> (#[trigger] listed[i]).match_id@ == match_id@ && listed[i].agent_id@ == agent_id@,
        forall|j: int|
            0 <= j < decisions.len() && (#[trigger] decisions[j]).match_id@ == match_id@ && decisions[j].agent_id@ == agent_id@
                ==> listed.contains(decisions[j]),
        listed == decisions.filter(decision_of_match(match_id@)).filter(decision_by_agent(agent_id@)),
{
    lemma_agent_filter_of_match_filter(decisions, match_id@, agent_id@);
    let p = decision_of_agent(match_id@, agent_id@);
    decisions.filter_lemma(p);
    assert forall|j: int|
        0 <= j < decisions.len() && (#[trigger] decisions[j]).match_id@ == match_id@ && decisions[j].agent_id@ == agent_id@
            implies listed.contains(decisions[j]) by {
        assert(p(decisions[j]));
        assert(decisions.contains(decisions[j]));
    }
    assert forall|i: int| 0 <= i < listed.len() implies (#[trigger] listed[i]).match_id@ == match_id@ && listed[i].agent_id@
        == agent_id@ by {
        assert(p(listed[i]));
    }
}

/// The events listed for a match are exactly those stored for it: each listed one
/// belongs to the match, and each stored one that does is listed.
pub proof fn law_listed_events_belong_to_match(events: Seq<GameEvent>, match_id: MatchId, listed: Seq<GameEvent>)
    requires
        listed == events.filter(event_of_match(match_id@)),
    ensures
        listed.len() <= events.len(),
        forall|i: int| 0 <= i < listed.len() ==> (#[trigger] listed[i]).match_id@ == match_id@,
        forall|j: int| 0 <= j < events.len() && (#[trigger] events[j]).match_id@ == match_id@ ==> listed.contains(events[j]),
{
    let p = event_of_match(match_id@);
    events.filter_lemma(p);
    assert forall|j: int| 0 <= j < events.len() && (#[trigger] events[j]).match_id@ == match_id@ implies listed.contains(
        events[j],
    ) by {
        assert(p(events[j]));
        assert(events.contains(events[j]));
    }
    assert forall|i: int| 0 <= i < listed.len() implies (#[trigger] listed[i]).match_id@ == match_id@ by {
        assert(p(listed[i]));
    }
}

/// The events listed for a turn of a match are exactly those stored for that match and
/// turn.
pub proof fn law_listed_events_belong_to_turn(events: Seq<GameEvent>, match_id: MatchId, turn: u32, listed: Seq<GameEvent>)
    requires
        listed == events.filter(event_of_turn(match_id@, turn)),
    ensures
        listed.len() <= events.len(),
        forall|i: int| 0 <= i < listed.len() ==> (#[trigger] listed[i]).match_id@ == match_id@ && listed[i].turn == turn,
        forall|j: int|
            0 <= j < events.len() && (#[trigger] events[j]).match_id@ == match_id@ && events[j].turn == turn ==> listed.contains(
                events[j],
            ),
{
    let p = event_of_turn(match_id@, turn);
    events.filter_lemma(p);
    assert forall|j: int| 0 <= j < events.len() && (#[trigger] events[j]).match_id@ == match_id@ && events[j].turn == turn implies listed.contains(
        events[j],
    ) by {
        assert(p(events[j]));
        assert(events.contains(events[j]));
    }
    assert forall|i: int| 0 <= i < listed.len() implies (#[trigger] listed[i]).match_id@ == match_id@ && listed[i].turn == turn by {
        assert(p(listed[i]));
    }
}

/// The decisions listed for a match are exactly those stored for it.
pub proof fn law_match_decisions_belong_to_match(
    decisions: Seq<AgentDecisionLogView>,
    match_id: MatchId,
    listed: Seq<AgentDecisionLogView>,
)
    requires
        listed == decisions.filter(decision_of_match(match_id@)),
    ensures
        listed.len() <= decisions.len(),
        forall|i: int| 0 <= i < listed.len() ==> (#[trigger] listed[i]).match_id@ == match_id@,
        forall|j: int| 0 <= j < decisions.len() && (#[trigger] decisions[j]).match_id@ == match_id@ ==> listed.contains(decisions[j]),
{
    let p = decision_of_match(match_id@);
    decisions.filter_lemma(p);
    assert forall|j: int| 0 <= j < decisions.len() && (#[trigger] decisions[j]).match_id@ == match_id@ implies listed.contains(
        decisions[j],
    ) by {
        assert(p(decisions[j]));
        assert(decisions.contains(decisions[j]));
    }
    assert forall|i: int| 0 <= i < listed.len() implies (#[trigger] listed[i]).match_id@ == match_id@ by {
        assert(p(listed[i]));
    }
}

/// The snapshots of one match, taken in stored order, come in increasing turn order.
proof fn lemma_match_snapshots_in_turn_order(snaps: Seq<GameStateSnapshotView>, match_id: Seq<char>)
    requires
        snapshots_ordered(snaps),
    ensures
        forall|i: int, j: int|
            0 <= i < j < snaps.filter(snapshot_of_match(match_id)).len() ==> (#[trigger] snaps.filter(snapshot_of_match(match_id))[i]).turn
                < (#[trigger] snaps.filter(snapshot_of_match(match_id))[j]).turn,
    decreases snaps.len(),
{
    let p = snapshot_of_match(match_id);
    if snaps.len() > 0 {
        let init = snaps.drop_last();
        assert(snapshots_ordered(init)) by {
            assert forall|i: int, j: int|
                0 <= i < j < init.len() && (#[trigger] init[i]).match_id@ == (#[trigger] init[j]).match_id@ implies init[i].turn
                    < init[j].turn by {
                assert(init[i] == snaps[i] && init[j] == snaps[j]);
            }
        }
        lemma_match_snapshots_in_turn_order(init, match_id);
        reveal(Seq::filter);
        assert(snaps.filter(p) == if p(snaps.last()) {
            init.filter(p).push(snaps.last())
        } else {
            init.filter(p)
        });
        if p(snaps.last()) {
            let f = init.filter(p);
            let g = snaps.filter(p);
            init.filter_lemma(p);
            assert forall|i: int, j: int| 0 <= i < j < g.len() implies (#[trigger] g[i]).turn < (#[trigger] g[j]).turn by {
                if j == g.len() - 1 {
                    assert(g[i] == f[i]);
                    assert(f.contains(f[i]));
                    init.lemma_filter_contains_rev(p, f[i]);
                    let k = choose|k: int| 0 <= k < init.len() && init[k] == f[i];
                    assert(p(f[i]));
                    assert(snaps[k] == init[k]);
                    assert(snaps[k].match_id@ == snaps[snaps.len() - 1].match_id@);
                } else {
                    assert(g[i] == f[i] && g[j] == f[j]);
                }
            }
        }
    }
}

/// The snapshots listed for a match are exactly those stored for it, in increasing turn
/// order.
pub proof fn law_listed_snapshots_belong_to_match(
    snaps: Seq<GameStateSnapshotView>,
    match_id: MatchId,
    listed: Seq<GameStateSnapshotView>,
)
    requires
        snapshots_ordered(snaps),
        listed == snaps.filter(snapshot_of_match(match_id@)),
    ensures
        listed.len() <= snaps.len(),
        forall|i: int| 0 <= i < listed.len() ==> (#[trigger] listed[i]).match_id@ == match_id@,
        forall|j: int| 0 <= j < snaps.len() && (#[trigger] snaps[j]).match_id@ == match_id@ ==> listed.contains(snaps[j]),
        forall|i: int, j: int| 0 <= i < j < listed.len() ==> (#[trigger] listed[i]).turn < (#[trigger] listed[j]).turn,
{
    let p = snapshot_of_match(match_id@);
    lemma_match_snapshots_in_turn_order(snaps, match_id@);
    snaps.filter_lemma(p);
    assert forall|j: int| 0 <= j < snaps.len() && (#[trigger] snaps[j]).match_id@ == match_id@ implies listed.contains(
        snaps[j],
    ) by {
        assert(p(snaps[j]));
        assert(snaps.contains(snaps[j]));
    }
    assert forall|i: int| 0 <= i < listed.len() implies (#[trigger] listed[i]).match_id@ == match_id@ by {
        assert(p(listed[i]));
    }
}

/// Looking a room up by identifier gives a stored room with that identifier, and nothing
/// only when no stored room has it.
pub proof fn law_found_room_has_the_asked_id(v: MemoryView, room_id: RoomId, r: Result<Option<Room>, RepoError>)
    requires
        room_index(v.rooms, room_id@) < 0 ==> r == Ok::<Option<Room>, RepoError>(None),
        room_index(v.rooms, room_id@) >= 0 ==> r is Ok && r->Ok_0 is Some && r->Ok_0->0@ == v.rooms[room_index(v.rooms, room_id@)],
    ensures
        r is Ok,
        r->Ok_0 is Some ==> r->Ok_0->0@.id@ == room_id@ && v.rooms.contains(r->Ok_0->0@),
        r->Ok_0 is None ==> forall|i: int| 0 <= i < v.rooms.len() ==> (#[trigger] v.rooms[i]).id@ != room_id@,
{
    lemma_first_index(v.rooms, room_with_id(room_id@));
    if room_index(v.rooms, room_id@) < 0 {
        assert forall|i: int| 0 <= i < v.rooms.len() implies (#[trigger] v.rooms[i]).id@ != room_id@ by {
            assert(!room_with_id(room_id@)(v.rooms[i]));
        }
    } else {
        let k = room_index(v.rooms, room_id@);
        assert(room_with_id(room_id@)(v.rooms[k]));
        assert(v.rooms[k] == r->Ok_0->0@);
    }
}

/// Looking a room up by code gives a stored room with that code, and nothing only when
/// no stored room has it.
pub proof fn law_found_room_has_the_asked_code(v: MemoryView, code: RoomCode, r: Result<Option<Room>, RepoError>)
    requires
        room_code_index(v.rooms, code@) < 0 ==> r == Ok::<Option<Room>, RepoError>(None),
        room_code_index(v.rooms, code@) >= 0 ==> r is Ok && r->Ok_0 is Some && r->Ok_0->0@ == v.rooms[room_code_index(v.rooms, code@)],
    ensures
        r is Ok,
        r->Ok_0 is Some ==> r->Ok_0->0@.code@ == code@ && v.rooms.contains(r->Ok_0->0@),
        r->Ok_0 is None ==> forall|i: int| 0 <= i < v.rooms.len() ==> (#[trigger] v.rooms[i]).code@ != code@,
{
    lemma_first_index(v.rooms, room_with_code(code@));
    if room_code_index(v.rooms, code@) < 0 {
        assert forall|i: int| 0 <= i < v.rooms.len() implies (#[trigger] v.rooms[i]).code@ != code@ by {
            assert(!room_with_code(code@)(v.rooms[i]));
        }
    } else {
        let k = room_code_index(v.rooms, code@);
        assert(room_with_code(code@)(v.rooms[k]));
        assert(v.rooms[k] == r->Ok_0->0@);
    }
}

/// Looking a match up by identifier gives a stored match with that identifier, and
/// nothing only when no stored match has it.
pub proof fn law_found_match_has_the_asked_id(v: MemoryView, match_id: MatchId, r: Result<Option<Match>, RepoError>)
    requires
        match_index(v.matches, match_id@) < 0 ==> r == Ok::<Option<Match>, RepoError>(None),
        match_index(v.matches, match_id@) >= 0 ==> r is Ok && r->Ok_0 is Some && r->Ok_0->0@ == v.matches[match_index(v.matches, match_id@)],
    ensures
        r is Ok,
        r->Ok_0 is Some ==> r->Ok_0->0@.id@ == match_id@ && v.matches.contains(r->Ok_0->0@),
        r->Ok_0 is None ==> forall|i: int| 0 <= i < v.matches.len() ==> (#[trigger] v.matches[i]).id@ != match_id@,
{
    lemma_first_index(v.matches, match_with_id(match_id@));
    if match_index(v.matches, match_id@) < 0 {
        assert forall|i: int| 0 <= i < v.matches.len() implies (#[trigger] v.matches[i]).id@ != match_id@ by {
            assert(!match_with_id(match_id@)(v.matches[i]));
        }
    } else {
        let k = match_index(v.matches, match_id@);
        assert(match_with_id(match_id@)(v.matches[k]));
        assert(v.matches[k] == r->Ok_0->0@);
    }
}

/// Looking a match up by room gives a stored match of that room, and nothing only when
/// no stored match belongs to it.
pub proof fn law_found_match_belongs_to_room(v: MemoryView, room_id: RoomId, r: Result<Option<Match>, RepoError>)
    requires
        r is Ok,
        first_index(v.matches, match_of_room(room_id@)) < 0 ==> r == Ok::<Option<Match>, RepoError>(None),
        first_index(v.matches, match_of_room(room_id@)) >= 0 ==> r is Ok && r->Ok_0 is Some
            && r->Ok_0->0@ == v.matches[first_index(v.matches, match_of_room(room_id@))],
    ensures
        r->Ok_0 is Some ==> r->Ok_0->0@.room_id@ == room_id@ && v.matches.contains(r->Ok_0->0@),
        r->Ok_0 is None ==> forall|i: int| 0 <= i < v.matches.len() ==> (#[trigger] v.matches[i]).room_id@ != room_id@,
{
    let p = match_of_room(room_id@);
    lemma_first_index(v.matches, p);
    if first_index(v.matches, p) < 0 {
        assert forall|i: int| 0 <= i < v.matches.len() implies (#[trigger] v.matches[i]).room_id@ != room_id@ by {
            assert(!p(v.matches[i]));
        }
    } else {
        let k = first_index(v.matches, p);
        assert(p(v.matches[k]));
        assert(v.matches[k] == r->Ok_0->0@);
    }
}

/// Looking a snapshot up by match and turn gives a stored snapshot of that match and
/// turn, and nothing only when none is stored.
pub proof fn law_found_snapshot_is_of_the_turn(
    v: MemoryView,
    match_id: MatchId,
    turn: u32,
    r: Result<Option<GameStateSnapshot>, RepoError>,
)
    requires
        r is Ok,
        first_index(v.snapshots, snapshot_at(match_id@, turn)) < 0 ==> r == Ok::<Option<GameStateSnapshot>, RepoError>(None),
        first_index(v.snapshots, snapshot_at(match_id@, turn)) >= 0 ==> r is Ok && r->Ok_0 is Some
            && r->Ok_0->0@ == v.snapshots[first_index(v.snapshots, snapshot_at(match_id@, turn))],
    ensures
        r->Ok_0 is Some ==> r->Ok_0->0@.match_id@ == match_id@ && r->Ok_0->0@.turn == turn && v.snapshots.contains(r->Ok_0->0@),
        r->Ok_0 is None ==> forall|i: int|
            0 <= i < v.snapshots.len() ==> !((#[trigger] v.snapshots[i]).match_id@ == match_id@ && v.snapshots[i].turn == turn),
{
    let p = snapshot_at(match_id@, turn);
    lemma_first_index(v.snapshots, p);
    if first_index(v.snapshots, p) < 0 {
        assert forall|i: int| 0 <= i < v.snapshots.len() implies !((#[trigger] v.snapshots[i]).match_id@ == match_id@
            && v.snapshots[i].turn == turn) by {
            assert(!p(v.snapshots[i]));
        }
    } else {
        let k = first_index(v.snapshots, p);
        assert(p(v.snapshots[k]));
        assert(v.snapshots[k] == r->Ok_0->0@);
    }
}

/// Starting a match succeeds exactly when the match is stored; the match returned, which
/// replaces the stored one, runs and counts as started when it was created, and nothing
/// else of it or of the store changes.
pub proof fn law_running_match_started_when_created(old: MemoryView, new: MemoryView, id: MatchId, r: Result<Match, RepoError>)
    requires
        match_step_result(old, new, id, running_step(), r),
    ensures
        r is Ok <==> exists|k: int| 0 <= k < old.matches.len() && (#[trigger] old.matches[k]).id@ == id@,
        r is Err ==> new == old,
        r is Ok ==> {
            let k = match_index(old.matches, id@);
            let m = old.matches[k];
            &&& m.id@ == id@
            &&& r->Ok_0@.status == MatchStatus::Running
            &&& r->Ok_0@.started_at == Some(m.created_at)
            &&& r->Ok_0@.id == m.id && r->Ok_0@.room_id == m.room_id && r->Ok_0@.created_at == m.created_at
            &&& r->Ok_0@.current_turn == m.current_turn && r->Ok_0@.result == m.result && r->Ok_0@.finished_at == m.finished_at
            &&& new.matches.len() == old.matches.len()
            &&& new.matches[k] == r->Ok_0@
            &&& forall|j: int| 0 <= j < old.matches.len() && j != k ==> new.matches[j] == #[trigger] old.matches[j]
            &&& new.rooms == old.rooms && new.events == old.events && new.decisions == old.decisions
        },
{
    lemma_first_index(old.matches, match_with_id(id@));
}

/// Moving a match to a turn succeeds exactly when the match is stored; only its current
/// turn changes, to the one given.
pub proof fn law_turn_update_sets_only_the_turn(
    old: MemoryView,
    new: MemoryView,
    id: MatchId,
    turn: u32,
    r: Result<Match, RepoError>,
)
    requires
        match_step_result(old, new, id, turn_step(turn), r),
    ensures
        r is Ok <==> exists|k: int| 0 <= k < old.matches.len() && (#[trigger] old.matches[k]).id@ == id@,
        r is Err ==> new == old,
        r is Ok ==> {
            let k = match_index(old.matches, id@);
            &&& old.matches[k].id@ == id@
            &&& r->Ok_0@.current_turn == turn
            &&& r->Ok_0@ == (MatchView { current_turn: r->Ok_0@.current_turn, ..old.matches[k] })
            &&& new.matches == old.matches.update(k, r->Ok_0@)
        },
{
    lemma_first_index(old.matches, match_with_id(id@));
}

/// A room change that needs a member of the room succeeds only on a stored room that
/// holds that player; the room returned then replaces it, and no other room changes.
pub proof fn law_member_step_needs_the_player(
    old: MemoryView,
    new: MemoryView,
    room_id: RoomId,
    step: spec_fn(RoomView, RoomView, Result<(), DomainError>) -> bool,
    player_id: PlayerId,
    r: Result<Room, RepoError>,
)
    requires
        room_step_result(old, new, room_id, step, Some(player_id), r),
        r is Ok,
    ensures
        exists|i: int| {
            &&& 0 <= i < old.rooms.len()
            &&& (#[trigger] old.rooms[i]).id@ == room_id@
            &&& exists|k: int| 0 <= k < old.rooms[i].players.len() && (#[trigger] old.rooms[i].players[k]).id@ == player_id@
            &&& new.rooms == old.rooms.update(i, r->Ok_0@)
        },
        new.matches == old.matches && new.events == old.events && new.snapshots == old.snapshots,
{
    let i = room_index(old.rooms, room_id@);
    lemma_first_index(old.rooms, room_with_id(room_id@));
    let room = old.rooms[i];
    lemma_first_index(room.players, player_with_id(player_id@));
    let k = player_index(room.players, player_id@);
    assert(player_with_id(player_id@)(room.players[k]));
    assert(old.rooms[i].players[k].id@ == player_id@);
}

/// Renaming a player succeeds only for a player of the room and a valid name; only that
/// player's display name changes, to the validated name.
pub proof fn law_rename_changes_only_the_name(
    old: MemoryView,
    new: MemoryView,
    input: RenamePlayerInput,
    r: Result<(Room, Player), RepoError>,
)
    requires
        rename_player_result(old, new, input, r),
    ensures
        r is Err ==> new == old,
        r is Ok ==> {
            let i = room_index(old.rooms, input.room_id@);
            let room = old.rooms[i];
            let players = r->Ok_0.0@.players;
            &&& 0 <= i && room.id@ == input.room_id@
            &&& spec_validate_display_name(input.display_name@) == Ok::<Seq<char>, DisplayNameValidationError>(r->Ok_0.1.display_name@)
            &&& r->Ok_0.1.id@ == input.player_id@
            &&& players.len() == room.players.len()
            &&& exists|k: int| {
                &&& 0 <= k < players.len()
                &&& (#[trigger] room.players[k]).id@ == input.player_id@
                &&& players[k] == r->Ok_0.1
                &&& r->Ok_0.1 == (Player { display_name: r->Ok_0.1.display_name, ..room.players[k] })
                &&& forall|j: int| 0 <= j < players.len() && j != k ==> players[j] == #[trigger] room.players[j]
            }
            &&& new.rooms == old.rooms.update(i, r->Ok_0.0@)
        },
{
    if r is Ok {
        let i = room_index(old.rooms, input.room_id@);
        lemma_first_index(old.rooms, room_with_id(input.room_id@));
        let room = old.rooms[i];
        lemma_first_index(room.players, player_with_id(input.player_id@));
        let k = player_index(room.players, input.player_id@);
        assert(player_with_id(input.player_id@)(room.players[k]));
    }
}

/// Attaching a match succeeds only on a stored locked room with no match yet; the room
/// returned then runs that match. A room that already has a match refuses another and
/// keeps the store as it was.
pub proof fn law_attach_needs_a_locked_room_without_match(
    old: MemoryView,
    new: MemoryView,
    room_id: RoomId,
    match_id: MatchId,
    r: Result<Room, RepoError>,
)
    requires
        attach_match_result(old, new, room_id, match_id, r),
    ensures
        r is Err ==> new == old,
        r is Ok ==> exists|i: int| {
            &&& 0 <= i < old.rooms.len()
            &&& (#[trigger] old.rooms[i]).id@ == room_id@
            &&& old.rooms[i].match_id is None
            &&& old.rooms[i].status == RoomStatus::Locked
            &&& r->Ok_0@.status == RoomStatus::Running
            &&& r->Ok_0@.match_id == Some(match_id)
            &&& r->Ok_0@.slots == old.rooms[i].slots && r->Ok_0@.players == old.rooms[i].players
            &&& new.rooms == old.rooms.update(i, r->Ok_0@)
        },
        (exists|i: int| 0 <= i < old.rooms.len() && (#[trigger] old.rooms[i]).id@ == room_id@) && (forall|i: int|
            0 <= i < old.rooms.len() && (#[trigger] old.rooms[i]).id@ == room_id@ ==> old.rooms[i].match_id is Some) ==> {
            &&& r is Err
            &&& r->Err_0 is RoomMatchAlreadyExists
        },
{
    lemma_first_index(old.rooms, room_with_id(room_id@));
    let i = room_index(old.rooms, room_id@);
    if i >= 0 {
        assert(room_with_id(room_id@)(old.rooms[i]));
    }
}

/// Saving a snapshot stores it and keeps every stored snapshot of another match or turn:
/// only a snapshot of the same match and turn gives way to it, and nothing else comes in.
pub proof fn law_saving_a_snapshot_keeps_the_others(snaps: Seq<GameStateSnapshotView>, s: GameStateSnapshotView)
    requires
        snapshots_ordered(snaps),
    ensures
        saved_snapshots(snaps, s).contains(s),
        forall|k: int| 0 <= k < snaps.len() && !((#[trigger] snaps[k]).match_id@ == s.match_id@ && snaps[k].turn == s.turn)
            ==> saved_snapshots(snaps, s).contains(snaps[k]),
        forall|j: int| 0 <= j < saved_snapshots(snaps, s).len() ==> #[trigger] saved_snapshots(snaps, s)[j] == s || (
        snaps.contains(saved_snapshots(snaps, s)[j]) && !(saved_snapshots(snaps, s)[j].match_id@ == s.match_id@
            && saved_snapshots(snaps, s)[j].turn == s.turn)),
        saved_snapshots(snaps, s).len() == snaps.len() + if (exists|k: int|
            0 <= k < snaps.len() && (#[trigger] snaps[k]).match_id@ == s.match_id@ && snaps[k].turn == s.turn) {
            0int
        } else {
            1int
        },
{
    let at = snapshot_at(s.match_id@, s.turn);
    let i = first_index(snaps, at);
    lemma_first_index(snaps, at);
    let saved = saved_snapshots(snaps, s);
    if i >= 0 {
        assert(saved[i] == s);
        assert(at(snaps[i]));
        assert forall|k: int| 0 <= k < snaps.len() && !((#[trigger] snaps[k]).match_id@ == s.match_id@ && snaps[k].turn == s.turn)
            implies saved.contains(snaps[k]) by {
            assert(k != i);
            assert(saved[k] == snaps[k]);
        }
        assert forall|j: int| 0 <= j < saved.len() implies #[trigger] saved[j] == s || (snaps.contains(saved[j]) && !(
        saved[j].match_id@ == s.match_id@ && saved[j].turn == s.turn)) by {
            if j != i {
                assert(saved[j] == snaps[j]);
                if snaps[j].match_id@ == s.match_id@ && snaps[j].turn == s.turn {
                    if j < i {
                        assert(at(snaps[j]));
                    } else {
                        assert(snaps[i].match_id@ == snaps[j].match_id@);
                        assert(snaps[i].turn < snaps[j].turn);
                    }
                }
            }
        }
    } else {
        let p = snapshot_position(snaps, s.match_id@, s.turn);
        lemma_first_index(snaps, snapshot_after(s.match_id@, s.turn));
        assert(0 <= p <= snaps.len());
        assert(saved[p] == s);
        assert forall|k: int| 0 <= k < snaps.len() && !((#[trigger] snaps[k]).match_id@ == s.match_id@ && snaps[k].turn == s.turn)
            implies saved.contains(snaps[k]) by {
            if k < p {
                assert(saved[k] == snaps[k]);
            } else {
                assert(saved[k + 1] == snaps[k]);
            }
        }
        assert forall|j: int| 0 <= j < saved.len() implies #[trigger] saved[j] == s || (snaps.contains(saved[j]) && !(
        saved[j].match_id@ == s.match_id@ && saved[j].turn == s.turn)) by {
            if j < p {
                assert(saved[j] == snaps[j]);
                assert(!at(snaps[j]));
            } else if j > p {
                assert(saved[j] == snaps[j - 1]);
                assert(!at(snaps[j - 1]));
            }
        }
        assert(!exists|k: int| 0 <= k < snaps.len() && (#[trigger] snaps[k]).match_id@ == s.match_id@ && snaps[k].turn == s.turn) by {
            assert forall|k: int| 0 <= k < snaps.len() implies !((#[trigger] snaps[k]).match_id@ == s.match_id@ && snaps[k].turn == s.turn) by {
                assert(!at(snaps[k]));
            }
        }
    }
}

} // verus!
