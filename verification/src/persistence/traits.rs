//! Persistence-layer input types and errors.

use vstd::prelude::*;

use crate::domain::error::DomainError;
use crate::domain::game_match::MatchConfigSnapshot;
use crate::domain::ids::{MatchId, PlayerId, RoomCode, RoomId, SlotId};
use crate::domain::player::Timestamp;

verus! {

/// The room to create.
#[derive(Debug, PartialEq, Eq)]
pub struct CreateRoomInput {
    pub room_id: RoomId,
    pub code: RoomCode,
    pub timestamp: Timestamp,
}

/// The player to add to a room.
#[derive(Debug, PartialEq, Eq)]
pub struct AddPlayerInput {
    pub room_id: RoomId,
    pub player_id: PlayerId,
    pub display_name: String,
    pub token_hash: String,
    pub timestamp: Timestamp,
}

/// The player to remove from a room.
#[derive(Debug, PartialEq, Eq)]
pub struct RemovePlayerInput {
    pub room_id: RoomId,
    pub player_id: PlayerId,
}

/// The player to rename.
#[derive(Debug, PartialEq, Eq)]
pub struct RenamePlayerInput {
    pub room_id: RoomId,
    pub player_id: PlayerId,
    pub display_name: String,
}

/// The slot a player claims.
#[derive(Debug, PartialEq, Eq)]
pub struct ClaimSlotInput {
    pub room_id: RoomId,
    pub player_id: PlayerId,
    pub slot_id: SlotId,
}

/// The slot a player releases.
#[derive(Debug, PartialEq, Eq)]
pub struct ReleaseSlotInput {
    pub room_id: RoomId,
    pub player_id: PlayerId,
    pub slot_id: SlotId,
}

/// The new prompt draft of a slot.
#[derive(Debug, PartialEq, Eq)]
pub struct UpdateSlotPromptInput {
    pub room_id: RoomId,
    pub player_id: PlayerId,
    pub slot_id: SlotId,
    pub prompt: String,
}

/// The room to lock.
#[derive(Debug, PartialEq, Eq)]
pub struct LockRoomInput {
    pub room_id: RoomId,
}

/// The match to create.
#[derive(Debug, PartialEq, Eq)]
pub struct CreateMatchInput {
    pub match_id: MatchId,
    pub room_id: RoomId,
    pub config_snapshot: MatchConfigSnapshot,
    pub timestamp: Timestamp,
}

/// Why a match failed.
#[derive(Debug, PartialEq, Eq)]
pub struct MatchError {
    pub message: String,
}

impl Clone for MatchError {
    fn clone(&self) -> (r: Self)
        ensures
            r == *self,
    {
        MatchError { message: self.message.clone() }
    }
}

impl MatchError {
    #[must_use]
    pub fn new(message: &str) -> (r: Self)
        ensures
            r.message@ == message@,
    {
        Self { message: String::from_str(message) }
    }
}

/// An entry of the admin audit log.
#[derive(Debug, PartialEq, Eq)]
pub struct AdminAuditLog {
    pub id: String,
    pub action: String,
    pub created_at: Timestamp,
}

impl Clone for AdminAuditLog {
    fn clone(&self) -> (r: Self)
        ensures
            r == *self,
    {
        AdminAuditLog { id: self.id.clone(), action: self.action.clone(), created_at: self.created_at }
    }
}

/// Errors of the repositories.
#[derive(Debug, Clone, PartialEq, Eq)]
pub enum RepoError {
    RoomNotFound { room_id: RoomId },
    RoomAlreadyExists { room_id: RoomId },
    RoomCodeAlreadyExists { code: RoomCode },
    PlayerAlreadyExists { room_id: RoomId, player_id: PlayerId },
    PlayerNotFound { room_id: RoomId, player_id: PlayerId },
    MatchNotFound { match_id: MatchId },
    MatchAlreadyExists { match_id: MatchId },
    RoomMatchAlreadyExists { room_id: RoomId, match_id: MatchId },
    Domain(DomainError),
}

impl From<DomainError> for RepoError {
    fn from(e: DomainError) -> (r: Self) {
        RepoError::Domain(e)
    }
}

impl vstd::std_specs::convert::FromSpecImpl<DomainError> for RepoError {
    open spec fn obeys_from_spec() -> bool {
        true
    }

    open spec fn from_spec(e: DomainError) -> Self {
        RepoError::Domain(e)
    }
}

} // verus!
