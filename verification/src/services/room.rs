//! Room application service.
//!
//! Each operation runs on the in-memory store and, when it succeeds, publishes the
//! room event it causes on the live event bus twice: first on the room's own topic,
//! then on the admin topic.
//!
//! Identifiers come from a counter that the caller holds for the whole process and
//! hands in; each new room or player uses up one number `n` of it: room `room_{n}`
//! with code `ROOM{n:04}`, player `player_{n}`. A joining player
//! gets the token `player-token-{n}-{now}`; the store keeps only its hash.

use std::collections::hash_map::DefaultHasher;
use std::hash::Hasher;

use vstd::prelude::*;
use vstd::std_specs::hash::DefaultHasherAdditionalSpecFns;

use crate::domain::error::DomainError;
use crate::domain::ids::{PlayerId, RoomCode, RoomId, SlotId};
use crate::domain::player::{Player, Timestamp};
use crate::domain::player::spec_validate_display_name;
use crate::seqs::lemma_first_index;
use crate::text::trim;
use crate::domain::room::{
    claim_allowed, owner_action_error, valid_transition, claim_slot_result, lock_with_role_defaults_result, release_slot_result, status_change_result, update_prompt_result, Room,
    RoomStatus, RoomView,
};
use tokio::sync::broadcast::Receiver;

use crate::event_bus::{
    can_open, capacity_ok, channel_messages, first_offered, lemma_reader_after_publish, opened_for, published_on, reads_channel, same_topic, spec_public_player, spec_room_summary, topic_index,
    EventBus, EventMessage, EventTopic, LiveEvent, PublicPlayer, RoomEvent, RoomSummary,
};
use crate::format::{
    decimal, hex_digits, lemma_decimal_injective, lemma_hex_digits_shape, push_decimal, push_hex_digits, push_zero_padded_decimal, zero_padded,
};
use crate::persistence::memory::{
    add_player_result, create_room_result, player_index, room_with_id, remove_player_result, rename_player_result, room_index, room_step_result,
    room_code_index, rooms_sorted, MemoryPersistence, MemoryView,
};
use crate::persistence::traits::{
    AddPlayerInput, ClaimSlotInput, CreateRoomInput, LockRoomInput, ReleaseSlotInput, RemovePlayerInput, RenamePlayerInput,
    RepoError, UpdateSlotPromptInput,
};

verus! {

/// What joining a room gives the new player: the room, the player and the raw token.
#[derive(Debug, PartialEq, Eq)]
pub struct JoinRoomOutput {
    pub room: Room,
    pub player: Player,
    pub token: String,
}

/// Errors of the room service.
#[derive(Debug, Clone, PartialEq, Eq)]
pub enum RoomServiceError {
    RoomNotFound { room_id: RoomId },
    Repo(RepoError),
}

impl From<RepoError> for RoomServiceError {
    fn from(e: RepoError) -> (r: Self) {
        RoomServiceError::Repo(e)
    }
}

impl vstd::std_specs::convert::FromSpecImpl<RepoError> for RoomServiceError {
    open spec fn obeys_from_spec() -> bool {
        true
    }

    open spec fn from_spec(e: RepoError) -> Self {
        RoomServiceError::Repo(e)
    }
}

/// The room service: the store and the event bus.
pub struct RoomService {
    persistence: MemoryPersistence,
    event_bus: EventBus,
}

/// The state of the room service.
pub struct RoomServiceView {
    pub store: MemoryView,
    pub bus: EventBus,
}

impl View for RoomService {
    type V = RoomServiceView;

    closed spec fn view(&self) -> RoomServiceView {
        RoomServiceView { store: self.persistence@, bus: self.event_bus }
    }
}

// ---------------------------------------------------------------------------
// Generated identifiers and tokens.
// ---------------------------------------------------------------------------

/// The sequence number after `n`; it wraps around.
pub open spec fn sequence_after(n: u64) -> u64 {
    if n == u64::MAX {
        0
    } else {
        (n + 1) as u64
    }
}

/// The identifier of the room made with sequence number `n`.
pub open spec fn room_id_text(n: u64) -> Seq<char> {
    "room_"@ + decimal(n as nat)
}

/// The code of the room made with sequence number `n`.
pub open spec fn room_code_text(n: u64) -> Seq<char> {
    "ROOM"@ + zero_padded(decimal(n as nat), 4)
}

/// The identifier of the player made with sequence number `n`.
pub open spec fn player_id_text(n: u64) -> Seq<char> {
    "player_"@ + decimal(n as nat)
}

/// The token of the player made with sequence number `n` at time `now`.
pub open spec fn token_text(n: u64, now: Timestamp) -> Seq<char> {
    "player-token-"@ + decimal(n as nat) + "-"@ + decimal(now as nat)
}

/// The stored hash of a token: the default hasher's digest of the token's UTF-8
/// bytes followed by the byte 0xff, as sixteen lowercase hexadecimal digits.
pub open spec fn token_hash_text(token: Seq<char>) -> Seq<char> {
    hex_digits(DefaultHasher::spec_finish(seq![vstd::utf8::encode_utf8(token), seq![0xffu8]]) as nat, 16)
}

fn room_id_for(n: u64) -> (r: RoomId)
    ensures
        r@ == room_id_text(n),
{
    let mut s = String::new();
    proof { reveal_strlit("room_"); }
    s.append("room_");
    push_decimal(&mut s, n);
    assert(s@ =~= room_id_text(n));
    RoomId::new(s.as_str())
}

fn room_code_for(n: u64) -> (r: RoomCode)
    ensures
        r@ == room_code_text(n),
{
    let mut s = String::new();
    proof { reveal_strlit("ROOM"); }
    s.append("ROOM");
    push_zero_padded_decimal(&mut s, n, 4);
    assert(s@ =~= room_code_text(n));
    RoomCode::new(s.as_str())
}

fn player_id_for(n: u64) -> (r: PlayerId)
    ensures
        r@ == player_id_text(n),
{
    let mut s = String::new();
    proof { reveal_strlit("player_"); }
    s.append("player_");
    push_decimal(&mut s, n);
    assert(s@ =~= player_id_text(n));
    PlayerId::new(s.as_str())
}

fn new_player_token(n: u64, now: Timestamp) -> (r: String)
    ensures
        r@ == token_text(n, now),
{
    let mut s = String::new();
    proof {
        reveal_strlit("player-token-");
        reveal_strlit("-");
    }
    s.append("player-token-");
    push_decimal(&mut s, n);
    s.append("-");
    push_decimal(&mut s, now);
    assert(s@ =~= token_text(n, now));
    s
}

/// The hash stored in place of a token. Hashing a `str` feeds the hasher the
/// string's bytes and then the byte 0xff; this feeds the same two writes.
fn hash_token(token: &str) -> (r: String)
    ensures
        r@ == token_hash_text(token@),
{
    let mut hasher = DefaultHasher::new();
    let bytes = token.as_bytes();
    assert(bytes@ == vstd::utf8::encode_utf8(token@));
    hasher.write(bytes);
    let end: Vec<u8> = vec![0xffu8];
    let end_bytes = end.as_slice();
    assert(end_bytes@ =~= seq![0xffu8]);
    hasher.write(end_bytes);
    assert(hasher@ =~= seq![vstd::utf8::encode_utf8(token@), seq![0xffu8]]);
    let digest = hasher.finish();
    let mut out = String::new();
    push_hex_digits(&mut out, digest, 16);
    assert(out@ =~= token_hash_text(token@));
    out
}

// ---------------------------------------------------------------------------
// Results and published messages.
// ---------------------------------------------------------------------------

/// The store-level result that a service result stands for.
pub open spec fn through_repo<T>(r: Result<T, RoomServiceError>) -> Result<T, RepoError> {
    match r {
        Ok(v) => Ok(v),
        Err(RoomServiceError::Repo(e)) => Err(e),
        Err(RoomServiceError::RoomNotFound { room_id }) => Err(RepoError::RoomNotFound { room_id }),
    }
}

/// The result came from the store (the service's own lookup error is not one).
pub open spec fn from_repo<T>(r: Result<T, RoomServiceError>) -> bool {
    !(r is Err && r->Err_0 is RoomNotFound)
}

/// The bus after a room event is published: first on the room's topic, then on the
/// admin topic.
pub open spec fn room_event_published(old: EventBus, new: EventBus, room_id: RoomId, event: RoomEvent) -> bool {
    exists|mid: EventBus|
        #![trigger published_on(old, mid, EventTopic::Room(room_id), EventMessage { topic: EventTopic::Room(room_id), event: LiveEvent::Room(event) })]
        published_on(
            old,
            mid,
            EventTopic::Room(room_id),
            EventMessage { topic: EventTopic::Room(room_id), event: LiveEvent::Room(event) },
        ) && published_on(mid, new, EventTopic::Admin, EventMessage { topic: EventTopic::Admin, event: LiveEvent::Room(event) })
}

/// The bus after an operation: with the event published on success, unchanged on failure.
pub open spec fn bus_after<T>(
    old: EventBus,
    new: EventBus,
    r: Result<T, RoomServiceError>,
    room_id: RoomId,
    event: RoomEvent,
) -> bool {
    if r is Ok {
        room_event_published(old, new, room_id, event)
    } else {
        new == old
    }
}

/// The result of requiring room `room_id` to have `status` before `action`.
pub open spec fn status_check(
    store: MemoryView,
    room_id: RoomId,
    status: RoomStatus,
    action: &'static str,
) -> Result<(), RoomServiceError> {
    let i = room_index(store.rooms, room_id@);
    if i < 0 {
        Err(RoomServiceError::RoomNotFound { room_id })
    } else if store.rooms[i].status != status {
        Err(RoomServiceError::Repo(RepoError::Domain(
            DomainError::RoomStatusDoesNotAllowAction { status: store.rooms[i].status, action },
        )))
    } else {
        Ok(())
    }
}

/// The store-level result that a join result stands for.
pub open spec fn join_through_repo(r: Result<JoinRoomOutput, RoomServiceError>) -> Result<(Room, Player), RepoError> {
    match through_repo(r) {
        Ok(out) => Ok((out.room, out.player)),
        Err(e) => Err(e),
    }
}

/// What joining room `room_id` under `display_name` at time `now` does, with the
/// identifier counter at `counter` before and at `counter_after` after.
pub open spec fn join_room_outcome(
    old: RoomServiceView,
    new: RoomServiceView,
    counter: u64,
    counter_after: u64,
    room_id: RoomId,
    display_name: Seq<char>,
    now: Timestamp,
    r: Result<JoinRoomOutput, RoomServiceError>,
) -> bool {
    match status_check(old.store, room_id, RoomStatus::Open, "join room") {
        Err(e) => r == Err::<JoinRoomOutput, RoomServiceError>(e) && new == old && counter_after == counter,
        Ok(()) => {
            let n = counter;
            &&& counter_after == sequence_after(n)
            &&& from_repo(r)
            &&& r is Ok ==> r->Ok_0.token@ == token_text(n, now)
            &&& exists|input: AddPlayerInput|
                #![trigger add_player_result(old.store, new.store, input, join_through_repo(r))]
                input.room_id == room_id && input.player_id@ == player_id_text(n) && input.display_name@ == display_name
                    && input.token_hash@ == token_hash_text(token_text(n, now)) && input.timestamp == now
                    && add_player_result(old.store, new.store, input, join_through_repo(r))
            &&& match r {
                Ok(out) => room_event_published(old.bus, new.bus, out.room.id, RoomEvent::PlayerJoined { room_id: out.room.id, player: spec_public_player(out.player) }),
                Err(_) => new.bus == old.bus,
            }
        },
    }
}

/// What renaming player `player_id` of room `room_id` to `display_name` does.
pub open spec fn rename_player_outcome(
    old: RoomServiceView,
    new: RoomServiceView,
    room_id: RoomId,
    player_id: PlayerId,
    display_name: Seq<char>,
    r: Result<(Room, Player), RoomServiceError>,
) -> bool {
    match status_check(old.store, room_id, RoomStatus::Open, "rename player") {
        Err(e) => r == Err::<(Room, Player), RoomServiceError>(e) && new == old,
        Ok(()) => {
            &&& from_repo(r)
            &&& exists|input: RenamePlayerInput|
                #![trigger rename_player_result(old.store, new.store, input, through_repo(r))]
                input.room_id == room_id && input.player_id == player_id && input.display_name@ == display_name
                    && rename_player_result(old.store, new.store, input, through_repo(r))
            &&& match r {
                Ok(out) => room_event_published(old.bus, new.bus, out.0.id, RoomEvent::PlayerRenamed { room_id: out.0.id, player_id, display_name: out.1.display_name }),
                Err(_) => new.bus == old.bus,
            }
        },
    }
}

/// The service state after an operation on the store that publishes `event` on success.
pub open spec fn store_step(
    old: RoomServiceView,
    new: RoomServiceView,
    r: Result<Room, RoomServiceError>,
    event: RoomEvent,
) -> bool {
    &&& from_repo(r)
    &&& bus_after(old.bus, new.bus, r, r->Ok_0.id, event)
}

/// What creating a room at time `now` does, with the identifier counter at `counter`
/// before and at `counter_after` after.
pub open spec fn create_room_outcome(
    old: RoomServiceView,
    new: RoomServiceView,
    counter: u64,
    counter_after: u64,
    now: Timestamp,
    r: Result<Room, RoomServiceError>,
) -> bool {
    &&& counter_after == sequence_after(counter)
    &&& from_repo(r)
    &&& exists|input: CreateRoomInput|
        #![trigger create_room_result(old.store, new.store, input, through_repo(r))]
        input.room_id@ == room_id_text(counter) && input.code@ == room_code_text(counter)
            && input.timestamp == now && create_room_result(old.store, new.store, input, through_repo(r))
    &&& match r {
        Ok(room) => room_event_published(old.bus, new.bus, room.id, RoomEvent::RoomCreated { room: spec_room_summary(room) }),
        Err(_) => new.bus == old.bus,
    }
}

/// The service can carry out an action on room `id` that `changes` describes: when the
/// room is stored and `changes` holds of it, the action succeeds, so the room can take
/// one more version and the bus can open the channels it publishes on.
pub open spec fn ready_when(svc: RoomServiceView, id: Seq<char>, changes: spec_fn(RoomView) -> bool) -> bool {
    let i = room_index(svc.store.rooms, id);
    &&& svc.store.room_can_bump_when(id, changes)
    &&& i >= 0 && changes(svc.store.rooms[i]) ==> capacity_ok(svc.bus.channel_capacity())
}

/// Uses up the next number of the identifier counter; it wraps around.
fn take_id(next_id: &mut u64) -> (r: u64)
    ensures
        r == *old(next_id),
        *final(next_id) == sequence_after(r),
{
    let n = *next_id;
    *next_id = if n == u64::MAX {
        0
    } else {
        n + 1
    };
    n
}

impl RoomService {
    /// A service over the given store, with a bus of its own.
    #[must_use]
    pub fn new(persistence: MemoryPersistence) -> (r: Self)
        ensures
            r@.store == persistence@,
            r@.bus.channel_capacity() == crate::event_bus::DEFAULT_CHANNEL_CAPACITY,
            r@.bus.topics().len() == 0,
    {
        RoomService { persistence, event_bus: EventBus::default() }
    }

    /// A service over the given store that publishes on the given bus.
    #[must_use]
    pub fn with_event_bus(persistence: MemoryPersistence, event_bus: EventBus) -> (r: Self)
        ensures
            r@ == (RoomServiceView { store: persistence@, bus: event_bus }),
    {
        RoomService { persistence, event_bus }
    }

    /// The store.
    pub fn persistence(&self) -> (r: &MemoryPersistence)
        ensures
            r@ == self@.store,
    {
        &self.persistence
    }

    /// The bus.
    pub fn event_bus(&self) -> (r: &EventBus)
        ensures
            *r == self@.bus,
    {
        &self.event_bus
    }

    /// A receiver for what the service publishes on `topic` from now on.
    #[must_use]
    pub fn subscribe(&mut self, topic: EventTopic) -> (r: Receiver<EventMessage>)
        requires
            can_open(old(self)@.bus, topic),
        ensures
            final(self)@.store == old(self)@.store,
            opened_for(old(self)@.bus, final(self)@.bus, topic),
            reads_channel(r, final(self)@.bus.senders()[topic_index(final(self)@.bus.topics(), topic)]),
            first_offered(r) == channel_messages(final(self)@.bus.senders()[topic_index(final(self)@.bus.topics(), topic)]).len(),
    {
        self.event_bus.subscribe(topic)
    }

    /// Publishes a room event on the room's topic, then on the admin topic.
    fn publish_room_event(&mut self, room_id: &RoomId, event: RoomEvent)
        requires
            capacity_ok(old(self)@.bus.channel_capacity()),
        ensures
            final(self)@.store == old(self)@.store,
            room_event_published(old(self)@.bus, final(self)@.bus, *room_id, event),
    {
        self.event_bus.publish_room(room_id, event.clone());
        let ghost mid = self.event_bus;
        self.event_bus.publish_admin(event);
        assert(published_on(
            old(self)@.bus,
            mid,
            EventTopic::Room(*room_id),
            EventMessage { topic: EventTopic::Room(*room_id), event: LiveEvent::Room(event) },
        ));
    }

    /// Creates a room with the next number of the identifier counter `next_id`.
    ///
    /// # Errors
    ///
    /// Returns an error when a room with the generated identifier or code exists.
    pub fn create_room(&mut self, next_id: &mut u64, now: Timestamp) -> (r: Result<Room, RoomServiceError>)
        requires
            room_index(old(self)@.store.rooms, room_id_text(*old(next_id))) < 0 && room_code_index(
                old(self)@.store.rooms,
                room_code_text(*old(next_id)),
            ) < 0 ==> capacity_ok(old(self)@.bus.channel_capacity()),
        ensures
            create_room_outcome(old(self)@, final(self)@, *old(next_id), *final(next_id), now, r),
    {
        let n = take_id(next_id);
        let input = CreateRoomInput { room_id: room_id_for(n), code: room_code_for(n), timestamp: now };
        let ghost input_v = input;
        let room = match self.persistence.create_room(input) {
            Ok(room) => room,
            Err(e) => {
                let r = Err(RoomServiceError::Repo(e));
                assert(create_room_result(old(self)@.store, self@.store, input_v, through_repo(r)));
                return r;
            },
        };
        let id = room.id.clone();
        self.publish_room_event(&id, RoomEvent::RoomCreated { room: RoomSummary::from(&room) });
        let r = Ok(room);
        assert(create_room_result(old(self)@.store, self@.store, input_v, through_repo(r)));
        r
    }

    /// Adds a player to an open room under a new identifier, from the counter
    /// `next_id`, and a new token.
    ///
    /// # Errors
    ///
    /// Returns an error when the room is missing or not open, the generated player
    /// identifier is taken, or the display name is invalid.
    pub fn join_room(&mut self, room_id: &RoomId, display_name: &str, next_id: &mut u64, now: Timestamp) -> (r: Result<
        JoinRoomOutput,
        RoomServiceError,
    >)
        requires
            ready_when(old(self)@, 
                room_id@,
                |room: RoomView|
                    room.status == RoomStatus::Open && player_index(room.players, player_id_text(*old(next_id))) < 0
                        && spec_validate_display_name(display_name@) is Ok,
            ),
        ensures
            join_room_outcome(old(self)@, final(self)@, *old(next_id), *final(next_id), *room_id, display_name@, now, r),
    {
        self.require_room_status(room_id, RoomStatus::Open, "join room")?;
        let n = take_id(next_id);
        let token = new_player_token(n, now);
        let input = AddPlayerInput {
            room_id: room_id.clone(),
            player_id: player_id_for(n),
            display_name: String::from_str(display_name),
            token_hash: hash_token(token.as_str()),
            timestamp: now,
        };
        let ghost input_v = input;
        let (room, player) = match self.persistence.add_player(input) {
            Ok(added) => added,
            Err(e) => {
                let r = Err(RoomServiceError::Repo(e));
                assert(add_player_result(old(self)@.store, self@.store, input_v, join_through_repo(r)));
                return r;
            },
        };
        let id = room.id.clone();
        self.publish_room_event(&id, RoomEvent::PlayerJoined { room_id: room.id.clone(), player: PublicPlayer::from(&player) });
        let r = Ok(JoinRoomOutput { room, player, token });
        assert(add_player_result(old(self)@.store, self@.store, input_v, join_through_repo(r)));
        r
    }

    /// Removes a player from a room; an open room also frees the player's slot.
    ///
    /// # Errors
    ///
    /// Returns an error when the room or the player is missing.
    pub fn leave_room(&mut self, room_id: &RoomId, player_id: &PlayerId) -> (r: Result<Room, RoomServiceError>)
        requires
            ready_when(old(self)@, room_id@, |room: RoomView| player_index(room.players, player_id@) >= 0),
        ensures
            remove_player_result(
                old(self)@.store,
                final(self)@.store,
                RemovePlayerInput { room_id: *room_id, player_id: *player_id },
                through_repo(r),
            ),
            store_step(
                old(self)@,
                final(self)@,
                r,
                RoomEvent::PlayerLeft { room_id: r->Ok_0.id, player_id: *player_id },
            ),
    {
        let room = match self.persistence.remove_player(
            RemovePlayerInput { room_id: room_id.clone(), player_id: player_id.clone() },
        ) {
            Ok(room) => room,
            Err(e) => return Err(RoomServiceError::Repo(e)),
        };
        let id = room.id.clone();
        self.publish_room_event(&id, RoomEvent::PlayerLeft { room_id: room.id.clone(), player_id: player_id.clone() });
        Ok(room)
    }

    /// Gives a player of an open room a new display name.
    ///
    /// # Errors
    ///
    /// Returns an error when the room is missing or not open, the player is missing,
    /// or the display name is invalid.
    pub fn rename_player(&mut self, room_id: &RoomId, player_id: &PlayerId, display_name: &str) -> (r: Result<
        (Room, Player),
        RoomServiceError,
    >)
        requires
            ready_when(old(self)@, 
                room_id@,
                |room: RoomView|
                    room.status == RoomStatus::Open && player_index(room.players, player_id@) >= 0
                        && spec_validate_display_name(display_name@) is Ok,
            ),
        ensures
            rename_player_outcome(old(self)@, final(self)@, *room_id, *player_id, display_name@, r),
    {
        self.require_room_status(room_id, RoomStatus::Open, "rename player")?;
        let input = RenamePlayerInput {
            room_id: room_id.clone(),
            player_id: player_id.clone(),
            display_name: String::from_str(display_name),
        };
        let ghost input_v = input;
        let (room, player) = match self.persistence.rename_player(input) {
            Ok(renamed) => renamed,
            Err(e) => {
                let r = Err(RoomServiceError::Repo(e));
                assert(rename_player_result(old(self)@.store, self@.store, input_v, through_repo(r)));
                return r;
            },
        };
        let id = room.id.clone();
        self.publish_room_event(
            &id,
            RoomEvent::PlayerRenamed {
                room_id: room.id.clone(),
                player_id: player_id.clone(),
                display_name: player.display_name.clone(),
            },
        );
        let r = Ok((room, player));
        assert(rename_player_result(old(self)@.store, self@.store, input_v, through_repo(r)));
        r
    }

    /// Claims a slot of an open room for one of its players.
    ///
    /// # Errors
    ///
    /// Returns an error when the room, the player or the slot is missing, the room is
    /// not open, the slot is taken, or the player already holds a slot.
    pub fn claim_slot(&mut self, room_id: &RoomId, player_id: &PlayerId, slot_id: &SlotId) -> (r: Result<
        Room,
        RoomServiceError,
    >)
        requires
            ready_when(old(self)@, 
                room_id@,
                |room: RoomView| player_index(room.players, player_id@) >= 0 && claim_allowed(room, *player_id, *slot_id),
            ),
        ensures
            room_step_result(
                old(self)@.store,
                final(self)@.store,
                *room_id,
                |o: RoomView, n: RoomView, res: Result<(), DomainError>| claim_slot_result(o, n, *player_id, *slot_id, res),
                Some(*player_id),
                through_repo(r),
            ),
            store_step(
                old(self)@,
                final(self)@,
                r,
                RoomEvent::SlotClaimed { room_id: r->Ok_0.id, slot_id: *slot_id, player_id: *player_id },
            ),
    {
        let room = match self.persistence.claim_slot(
            ClaimSlotInput { room_id: room_id.clone(), player_id: player_id.clone(), slot_id: slot_id.clone() },
        ) {
            Ok(room) => room,
            Err(e) => return Err(RoomServiceError::Repo(e)),
        };
        let id = room.id.clone();
        self.publish_room_event(
            &id,
            RoomEvent::SlotClaimed { room_id: room.id.clone(), slot_id: slot_id.clone(), player_id: player_id.clone() },
        );
        Ok(room)
    }

    /// Frees a slot of an open room that the player holds.
    ///
    /// # Errors
    ///
    /// Returns an error when the room, the player or the slot is missing, the room is
    /// not open, or the player does not hold the slot.
    pub fn release_slot(&mut self, room_id: &RoomId, player_id: &PlayerId, slot_id: &SlotId) -> (r: Result<
        Room,
        RoomServiceError,
    >)
        requires
            ready_when(old(self)@, 
                room_id@,
                |room: RoomView|
                    player_index(room.players, player_id@) >= 0 && owner_action_error(room, *player_id, *slot_id, "release slot") is None,
            ),
        ensures
            room_step_result(
                old(self)@.store,
                final(self)@.store,
                *room_id,
                |o: RoomView, n: RoomView, res: Result<(), DomainError>| release_slot_result(o, n, *player_id, *slot_id, res),
                Some(*player_id),
                through_repo(r),
            ),
            store_step(
                old(self)@,
                final(self)@,
                r,
                RoomEvent::SlotReleased { room_id: r->Ok_0.id, slot_id: *slot_id },
            ),
    {
        let room = match self.persistence.release_slot(
            ReleaseSlotInput { room_id: room_id.clone(), player_id: player_id.clone(), slot_id: slot_id.clone() },
        ) {
            Ok(room) => room,
            Err(e) => return Err(RoomServiceError::Repo(e)),
        };
        let id = room.id.clone();
        self.publish_room_event(&id, RoomEvent::SlotReleased { room_id: room.id.clone(), slot_id: slot_id.clone() });
        Ok(room)
    }

    /// Sets the prompt draft of a slot of an open room that the player holds.
    ///
    /// # Errors
    ///
    /// Returns an error when the room, the player or the slot is missing, the room is
    /// not open, or the player does not hold the slot.
    pub fn update_prompt(&mut self, room_id: &RoomId, player_id: &PlayerId, slot_id: &SlotId, prompt: &str) -> (r: Result<
        Room,
        RoomServiceError,
    >)
        requires
            ready_when(old(self)@, 
                room_id@,
                |room: RoomView|
                    player_index(room.players, player_id@) >= 0 && owner_action_error(room, *player_id, *slot_id, "update prompt") is None,
            ),
        ensures
            room_step_result(
                old(self)@.store,
                final(self)@.store,
                *room_id,
                |o: RoomView, n: RoomView, res: Result<(), DomainError>|
                    update_prompt_result(o, n, *player_id, *slot_id, prompt@, res),
                Some(*player_id),
                through_repo(r),
            ),
            store_step(
                old(self)@,
                final(self)@,
                r,
                RoomEvent::SlotPromptUpdated { room_id: r->Ok_0.id, slot_id: *slot_id, updated_by: *player_id },
            ),
    {
        let room = match self.persistence.update_slot_prompt(
            UpdateSlotPromptInput {
                room_id: room_id.clone(),
                player_id: player_id.clone(),
                slot_id: slot_id.clone(),
                prompt: String::from_str(prompt),
            },
        ) {
            Ok(room) => room,
            Err(e) => return Err(RoomServiceError::Repo(e)),
        };
        let id = room.id.clone();
        self.publish_room_event(
            &id,
            RoomEvent::SlotPromptUpdated {
                room_id: room.id.clone(),
                slot_id: slot_id.clone(),
                updated_by: player_id.clone(),
            },
        );
        Ok(room)
    }

    /// Locks an open room, taking each slot's prompt (or its role's default).
    ///
    /// # Errors
    ///
    /// Returns an error when the room is missing or not open.
    pub fn lock_room(&mut self, room_id: &RoomId) -> (r: Result<Room, RoomServiceError>)
        requires
            ready_when(old(self)@, room_id@, |room: RoomView| valid_transition(room.status, RoomStatus::Locked)),
        ensures
            room_step_result(
                old(self)@.store,
                final(self)@.store,
                *room_id,
                |o: RoomView, n: RoomView, res: Result<(), DomainError>| lock_with_role_defaults_result(o, n, res),
                None,
                through_repo(r),
            ),
            store_step(old(self)@, final(self)@, r, RoomEvent::RoomLocked { room_id: r->Ok_0.id }),
    {
        let room = match self.persistence.lock_room(LockRoomInput { room_id: room_id.clone() }) {
            Ok(room) => room,
            Err(e) => return Err(RoomServiceError::Repo(e)),
        };
        let id = room.id.clone();
        self.publish_room_event(&id, RoomEvent::RoomLocked { room_id: room.id.clone() });
        Ok(room)
    }

    /// Reopens a locked room.
    ///
    /// # Errors
    ///
    /// Returns an error when the room is missing or not locked.
    pub fn unlock_room(&mut self, room_id: &RoomId) -> (r: Result<Room, RoomServiceError>)
        requires
            ready_when(old(self)@, room_id@, |room: RoomView| valid_transition(room.status, RoomStatus::Open)),
        ensures
            room_step_result(
                old(self)@.store,
                final(self)@.store,
                *room_id,
                |o: RoomView, n: RoomView, res: Result<(), DomainError>| status_change_result(o, n, RoomStatus::Open, res),
                None,
                through_repo(r),
            ),
            store_step(old(self)@, final(self)@, r, RoomEvent::RoomUnlocked { room_id: r->Ok_0.id }),
    {
        let room = match self.persistence.unlock_room(room_id) {
            Ok(room) => room,
            Err(e) => return Err(RoomServiceError::Repo(e)),
        };
        let id = room.id.clone();
        self.publish_room_event(&id, RoomEvent::RoomUnlocked { room_id: room.id.clone() });
        Ok(room)
    }

    /// The current state of a room.
    ///
    /// # Errors
    ///
    /// Returns an error when the room is missing.
    pub fn get_room_state(&self, room_id: &RoomId) -> (r: Result<Room, RoomServiceError>)
        ensures
            room_index(self@.store.rooms, room_id@) < 0 ==> r == Err::<Room, RoomServiceError>(
                RoomServiceError::RoomNotFound { room_id: *room_id },
            ),
            room_index(self@.store.rooms, room_id@) >= 0 ==> r is Ok
                && r->Ok_0@ == self@.store.rooms[room_index(self@.store.rooms, room_id@)],
    {
        self.load_room(room_id)
    }

    /// All rooms, sorted by identifier.
    ///
    /// # Errors
    ///
    /// Never fails; the error is part of the service interface.
    pub fn list_rooms(&self) -> (r: Result<Vec<Room>, RoomServiceError>)
        ensures
            r is Ok,
            r->Ok_0@.map_values(|x: Room| x@) == self@.store.rooms,
            rooms_sorted(self@.store.rooms),
    {
        match self.persistence.list_rooms() {
            Ok(rooms) => Ok(rooms),
            Err(e) => Err(RoomServiceError::Repo(e)),
        }
    }

    fn load_room(&self, room_id: &RoomId) -> (r: Result<Room, RoomServiceError>)
        ensures
            room_index(self@.store.rooms, room_id@) < 0 ==> r == Err::<Room, RoomServiceError>(
                RoomServiceError::RoomNotFound { room_id: *room_id },
            ),
            room_index(self@.store.rooms, room_id@) >= 0 ==> r is Ok
                && r->Ok_0@ == self@.store.rooms[room_index(self@.store.rooms, room_id@)],
    {
        match self.persistence.get_room(room_id) {
            Ok(Some(room)) => Ok(room),
            Ok(None) => Err(RoomServiceError::RoomNotFound { room_id: room_id.clone() }),
            Err(e) => Err(RoomServiceError::Repo(e)),
        }
    }

    fn require_room_status(&self, room_id: &RoomId, status: RoomStatus, action: &'static str) -> (r: Result<
        (),
        RoomServiceError,
    >)
        ensures
            r == status_check(self@.store, *room_id, status, action),
    {
        let room = self.load_room(room_id)?;
        if room.status == status {
            Ok(())
        } else {
            Err(RoomServiceError::Repo(RepoError::Domain(
                DomainError::RoomStatusDoesNotAllowAction { status: room.status, action },
            )))
        }
    }
}

/// The hash a room keeps for a player is never the player's token itself.
pub proof fn law_stored_hash_is_not_the_token(n: u64, now: Timestamp)
    ensures
        token_hash_text(token_text(n, now)) != token_text(n, now),
{
    let token = token_text(n, now);
    let digest = DefaultHasher::spec_finish(seq![vstd::utf8::encode_utf8(token), seq![0xffu8]]);
    lemma_hex_digits_shape(digest as nat, 16);
    reveal_strlit("player-token-");
    assert(token[0] == 'p');
    assert((token_hash_text(token)[0] as int) <= ('f' as int));
}

/// A player who joins gets a token; the room keeps the player, with the hash of that
/// token and not the token itself.
pub proof fn law_join_keeps_only_the_token_hash(
    old: RoomServiceView,
    new: RoomServiceView,
    counter: u64,
    counter_after: u64,
    room_id: RoomId,
    display_name: Seq<char>,
    now: Timestamp,
    r: Result<JoinRoomOutput, RoomServiceError>,
)
    requires
        join_room_outcome(old, new, counter, counter_after, room_id, display_name, now, r),
        r is Ok,
    ensures
        r->Ok_0.player.token_hash@ == token_hash_text(r->Ok_0.token@),
        r->Ok_0.player.token_hash@ != r->Ok_0.token@,
        r->Ok_0.room@.players.last() == r->Ok_0.player,
{
    let n = counter;
    let input = choose|input: AddPlayerInput|
        #![trigger add_player_result(old.store, new.store, input, join_through_repo(r))]
        input.room_id == room_id && input.player_id@ == player_id_text(n) && input.display_name@ == display_name
            && input.token_hash@ == token_hash_text(token_text(n, now)) && input.timestamp == now
            && add_player_result(old.store, new.store, input, join_through_repo(r));
    assert(add_player_result(old.store, new.store, input, join_through_repo(r)));
    law_stored_hash_is_not_the_token(n, now);
}

/// A refused room action of the service changes nothing: not the store, and it
/// publishes nothing.
pub proof fn law_refused_action_changes_nothing(
    old: RoomServiceView,
    new: RoomServiceView,
    room_id: RoomId,
    step: spec_fn(RoomView, RoomView, Result<(), DomainError>) -> bool,
    needs_player: Option<PlayerId>,
    event: RoomEvent,
    r: Result<Room, RoomServiceError>,
)
    requires
        room_step_result(old.store, new.store, room_id, step, needs_player, through_repo(r)),
        store_step(old, new, r, event),
        r is Err,
    ensures
        new == old,
{
}

/// When a room event is published, a subscriber of the room's topic or of the admin
/// topic reads the channel that the event's message is handed to.
pub proof fn law_subscribers_get_room_events(
    old: EventBus,
    new: EventBus,
    room_id: RoomId,
    event: RoomEvent,
    t: EventTopic,
    r: Receiver<EventMessage>,
)
    requires
        room_event_published(old, new, room_id, event),
        t == EventTopic::Room(room_id) || t == EventTopic::Admin,
        0 <= topic_index(old.topics(), t) < old.senders().len(),
        reads_channel(r, old.senders()[topic_index(old.topics(), t)]),
    ensures
        0 <= topic_index(new.topics(), t) < new.senders().len(),
        reads_channel(r, new.senders()[topic_index(new.topics(), t)]),
        channel_messages(new.senders()[topic_index(new.topics(), t)]) == channel_messages(
            old.senders()[topic_index(old.topics(), t)],
        ).push(EventMessage { topic: t, event: LiveEvent::Room(event) }),
{
    let room = EventTopic::Room(room_id);
    let room_message = EventMessage { topic: room, event: LiveEvent::Room(event) };
    let admin_message = EventMessage { topic: EventTopic::Admin, event: LiveEvent::Room(event) };
    let mid = choose|mid: EventBus|
        #![trigger published_on(old, mid, room, room_message)]
        published_on(old, mid, room, room_message) && published_on(mid, new, EventTopic::Admin, admin_message);
    lemma_reader_after_publish(old, mid, t, r, room, room_message);
    lemma_reader_after_publish(mid, new, t, r, EventTopic::Admin, admin_message);
    assert(same_topic(room, t) != same_topic(EventTopic::Admin, t));
}

/// Joining succeeds only on a stored open room: the player returned, under the new
/// identifier and the trimmed display name, joins at `now` and comes after the players
/// the room had. Joining a room that is not open is refused and changes nothing.
pub proof fn law_join_needs_an_open_room(
    old: RoomServiceView,
    new: RoomServiceView,
    counter: u64,
    counter_after: u64,
    room_id: RoomId,
    display_name: Seq<char>,
    now: Timestamp,
    r: Result<JoinRoomOutput, RoomServiceError>,
)
    requires
        join_room_outcome(old, new, counter, counter_after, room_id, display_name, now, r),
    ensures
        (forall|i: int| 0 <= i < old.store.rooms.len() && (#[trigger] old.store.rooms[i]).id@ == room_id@ ==> old.store.rooms[i].status
            != RoomStatus::Open) ==> r is Err && new == old && counter_after == counter,
        r is Ok ==> exists|i: int| {
            &&& 0 <= i < old.store.rooms.len()
            &&& (#[trigger] old.store.rooms[i]).id@ == room_id@
            &&& old.store.rooms[i].status == RoomStatus::Open
            &&& r->Ok_0.room@.players == old.store.rooms[i].players.push(r->Ok_0.player)
            &&& r->Ok_0.player.id@ == player_id_text(counter)
            &&& r->Ok_0.player.display_name@ == trim(display_name)
            &&& r->Ok_0.player.joined_at == now
        },
{
    lemma_first_index(old.store.rooms, room_with_id(room_id@));
    let i = room_index(old.store.rooms, room_id@);
    if i >= 0 {
        assert(room_with_id(room_id@)(old.store.rooms[i]));
    }
    if r is Ok {
        let n = counter;
        let input = choose|input: AddPlayerInput|
            #![trigger add_player_result(old.store, new.store, input, join_through_repo(r))]
            input.room_id == room_id && input.player_id@ == player_id_text(n) && input.display_name@ == display_name
                && input.token_hash@ == token_hash_text(token_text(n, now)) && input.timestamp == now
                && add_player_result(old.store, new.store, input, join_through_repo(r));
        assert(add_player_result(old.store, new.store, input, join_through_repo(r)));
        assert(old.store.rooms[i].id@ == room_id@);
    }
}

/// Distinct numbers of the identifier counter give distinct room identifiers, room
/// codes and player identifiers, so rooms and players made one after another never
/// collide while the counter has not come round again.
pub proof fn law_counter_numbers_give_distinct_names(a: u64, b: u64)
    requires
        a != b,
    ensures
        room_id_text(a) != room_id_text(b),
        room_code_text(a) != room_code_text(b),
        player_id_text(a) != player_id_text(b),
        sequence_after(a) != sequence_after(b),
{
    lemma_decimal_injective(a as nat, b as nat, 4);
    reveal_strlit("room_");
    reveal_strlit("ROOM");
    reveal_strlit("player_");
    let ra = room_id_text(a);
    let rb = room_id_text(b);
    assert(ra.subrange(5, ra.len() as int) =~= decimal(a as nat));
    assert(rb.subrange(5, rb.len() as int) =~= decimal(b as nat));
    let ca = room_code_text(a);
    let cb = room_code_text(b);
    assert(ca.subrange(4, ca.len() as int) =~= zero_padded(decimal(a as nat), 4));
    assert(cb.subrange(4, cb.len() as int) =~= zero_padded(decimal(b as nat), 4));
    let pa = player_id_text(a);
    let pb = player_id_text(b);
    assert(pa.subrange(7, pa.len() as int) =~= decimal(a as nat));
    assert(pb.subrange(7, pb.len() as int) =~= decimal(b as nat));
}

} // verus!
