//! Teams of a room.

use vstd::prelude::*;

use crate::domain::ids::TeamId;

verus! {

/// The side of the map a team starts from.
#[derive(Debug, Clone, Copy, PartialEq, Eq, Hash, Structural)]
pub enum TeamSide {
    A,
    B,
}

/// A team of a room.
#[derive(Debug, PartialEq, Eq)]
pub struct Team {
    pub id: TeamId,
    pub name: String,
    pub side: TeamSide,
}

impl Team {
    pub fn new(id: TeamId, name: String, side: TeamSide) -> (r: Self)
        ensures
            r == (Team { id, name, side }),
    {
        Self { id, name, side }
    }
}

impl Clone for Team {
    fn clone(&self) -> (r: Self)
        ensures
            r == *self,
    {
        Team { id: self.id.clone(), name: self.name.clone(), side: self.side }
    }
}

} // verus!
