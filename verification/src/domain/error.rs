//! Domain errors.

use vstd::prelude::*;

use crate::domain::ids::{NodeId, PlayerId, SlotId};
use crate::domain::room::RoomStatus;
use crate::domain::team::TeamSide;

verus! {

/// Why a display name was refused.
#[derive(Debug, Clone, Copy, PartialEq, Eq, Structural)]
pub enum DisplayNameValidationError {
    /// Nothing is left once surrounding whitespace is removed.
    Empty,
    /// The trimmed name has more characters than allowed.
    TooLong { length: usize, max: usize },
    /// The trimmed name holds a control character.
    ContainsControlCharacter,
}

/// Why a map was refused.
#[derive(Debug, Clone, PartialEq, Eq)]
pub enum MapValidationError {
    /// The text holds no row.
    EmptyInput,
    /// A row has another number of tiles than the first row.
    InconsistentRowWidth { row: usize, expected: usize, actual: usize },
    /// A tile is not one the map format knows.
    InvalidTile { x: usize, y: usize },
    /// The map is not as wide as the game requires.
    WrongWidth { actual: usize, expected: usize },
    /// The map is not as high as the game requires.
    WrongHeight { actual: usize, expected: usize },
    /// The map does not hold the number of control nodes the game requires.
    WrongControlNodeCount { actual: usize, expected: usize },
    /// One of the required control nodes is missing (another one appears twice).
    MissingControlNode,
    /// A control node lies outside the map, on a wall, on a spawn or on another node.
    InvalidControlNodePosition { node_id: NodeId },
    /// A team has no spawn tile.
    MissingSpawn { side: TeamSide },
}

/// Errors of the room and map rules.
#[derive(Debug, Clone, PartialEq, Eq)]
pub enum DomainError {
    InvalidDisplayName(DisplayNameValidationError),
    InvalidMap(MapValidationError),
    SlotNotFound { slot_id: SlotId },
    SlotAlreadyClaimed { slot_id: SlotId },
    PlayerAlreadyClaimedSlot { player_id: PlayerId, slot_id: SlotId },
    SlotNotOwnedByPlayer { slot_id: SlotId, player_id: PlayerId },
    RoomStatusDoesNotAllowAction { status: RoomStatus, action: &'static str },
    InvalidRoomStatusTransition { from: RoomStatus, to: RoomStatus },
}

} // verus!
