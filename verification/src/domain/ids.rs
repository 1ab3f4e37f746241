//! String-backed identifier types.
//!
//! Each identifier is a newtype over `String`. Its view is the character
//! sequence it holds, and `==` on identifiers compares those sequences.

use vstd::prelude::*;

verus! {

/// Identifier of a room.
#[derive(Debug, Eq, Hash, PartialOrd, Ord)]
pub struct RoomId(String);

impl View for RoomId {
    type V = Seq<char>;

    closed spec fn view(&self) -> Seq<char> {
        self.0@
    }
}

impl RoomId {
    pub fn new(val: &str) -> (r: Self)
        ensures
            r@ == val@,
    {
        RoomId(String::from_str(val))
    }

    pub fn as_str(&self) -> (r: &str)
        ensures
            r@ == self@,
    {
        self.0.as_str()
    }

    pub fn into_inner(self) -> (r: String)
        ensures
            r@ == self@,
    {
        self.0
    }
}

impl Clone for RoomId {
    fn clone(&self) -> (r: Self)
        ensures
            r == *self,
    {
        RoomId(self.0.clone())
    }
}

impl PartialEq for RoomId {
    fn eq(&self, other: &Self) -> (r: bool) {
        self.0 == other.0
    }
}

impl vstd::std_specs::cmp::PartialEqSpecImpl for RoomId {
    open spec fn obeys_eq_spec() -> bool {
        true
    }

    open spec fn eq_spec(&self, other: &Self) -> bool {
        self@ == other@
    }
}

impl From<String> for RoomId {
    fn from(val: String) -> (r: Self) {
        RoomId(val)
    }
}

impl vstd::std_specs::convert::FromSpecImpl<String> for RoomId {
    open spec fn obeys_from_spec() -> bool {
        true
    }

    open spec fn from_spec(v: String) -> Self {
        RoomId::spec_from_string(v)
    }
}

impl RoomId {
    /// The identifier that holds the given string.
    pub closed spec fn spec_from_string(v: String) -> Self {
        RoomId(v)
    }
}


/// Identifier of a player inside a room.
#[derive(Debug, Eq, Hash, PartialOrd, Ord)]
pub struct PlayerId(String);

impl View for PlayerId {
    type V = Seq<char>;

    closed spec fn view(&self) -> Seq<char> {
        self.0@
    }
}

impl PlayerId {
    pub fn new(val: &str) -> (r: Self)
        ensures
            r@ == val@,
    {
        PlayerId(String::from_str(val))
    }

    pub fn as_str(&self) -> (r: &str)
        ensures
            r@ == self@,
    {
        self.0.as_str()
    }

    pub fn into_inner(self) -> (r: String)
        ensures
            r@ == self@,
    {
        self.0
    }
}

impl Clone for PlayerId {
    fn clone(&self) -> (r: Self)
        ensures
            r == *self,
    {
        PlayerId(self.0.clone())
    }
}

impl PartialEq for PlayerId {
    fn eq(&self, other: &Self) -> (r: bool) {
        self.0 == other.0
    }
}

impl vstd::std_specs::cmp::PartialEqSpecImpl for PlayerId {
    open spec fn obeys_eq_spec() -> bool {
        true
    }

    open spec fn eq_spec(&self, other: &Self) -> bool {
        self@ == other@
    }
}

impl From<String> for PlayerId {
    fn from(val: String) -> (r: Self) {
        PlayerId(val)
    }
}

impl vstd::std_specs::convert::FromSpecImpl<String> for PlayerId {
    open spec fn obeys_from_spec() -> bool {
        true
    }

    open spec fn from_spec(v: String) -> Self {
        PlayerId::spec_from_string(v)
    }
}

impl PlayerId {
    /// The identifier that holds the given string.
    pub closed spec fn spec_from_string(v: String) -> Self {
        PlayerId(v)
    }
}


/// Identifier of a team.
#[derive(Debug, Eq, Hash, PartialOrd, Ord)]
pub struct TeamId(String);

impl View for TeamId {
    type V = Seq<char>;

    closed spec fn view(&self) -> Seq<char> {
        self.0@
    }
}

impl TeamId {
    pub fn new(val: &str) -> (r: Self)
        ensures
            r@ == val@,
    {
        TeamId(String::from_str(val))
    }

    pub fn as_str(&self) -> (r: &str)
        ensures
            r@ == self@,
    {
        self.0.as_str()
    }

    pub fn into_inner(self) -> (r: String)
        ensures
            r@ == self@,
    {
        self.0
    }
}

impl Clone for TeamId {
    fn clone(&self) -> (r: Self)
        ensures
            r == *self,
    {
        TeamId(self.0.clone())
    }
}

impl PartialEq for TeamId {
    fn eq(&self, other: &Self) -> (r: bool) {
        self.0 == other.0
    }
}

impl vstd::std_specs::cmp::PartialEqSpecImpl for TeamId {
    open spec fn obeys_eq_spec() -> bool {
        true
    }

    open spec fn eq_spec(&self, other: &Self) -> bool {
        self@ == other@
    }
}

impl From<String> for TeamId {
    fn from(val: String) -> (r: Self) {
        TeamId(val)
    }
}

impl vstd::std_specs::convert::FromSpecImpl<String> for TeamId {
    open spec fn obeys_from_spec() -> bool {
        true
    }

    open spec fn from_spec(v: String) -> Self {
        TeamId::spec_from_string(v)
    }
}

impl TeamId {
    /// The identifier that holds the given string.
    pub closed spec fn spec_from_string(v: String) -> Self {
        TeamId(v)
    }
}


/// Identifier of an agent slot.
#[derive(Debug, Eq, Hash, PartialOrd, Ord)]
pub struct SlotId(String);

impl View for SlotId {
    type V = Seq<char>;

    closed spec fn view(&self) -> Seq<char> {
        self.0@
    }
}

impl SlotId {
    pub fn new(val: &str) -> (r: Self)
        ensures
            r@ == val@,
    {
        SlotId(String::from_str(val))
    }

    pub fn as_str(&self) -> (r: &str)
        ensures
            r@ == self@,
    {
        self.0.as_str()
    }

    pub fn into_inner(self) -> (r: String)
        ensures
            r@ == self@,
    {
        self.0
    }
}

impl Clone for SlotId {
    fn clone(&self) -> (r: Self)
        ensures
            r == *self,
    {
        SlotId(self.0.clone())
    }
}

impl PartialEq for SlotId {
    fn eq(&self, other: &Self) -> (r: bool) {
        self.0 == other.0
    }
}

impl vstd::std_specs::cmp::PartialEqSpecImpl for SlotId {
    open spec fn obeys_eq_spec() -> bool {
        true
    }

    open spec fn eq_spec(&self, other: &Self) -> bool {
        self@ == other@
    }
}

impl From<String> for SlotId {
    fn from(val: String) -> (r: Self) {
        SlotId(val)
    }
}

impl vstd::std_specs::convert::FromSpecImpl<String> for SlotId {
    open spec fn obeys_from_spec() -> bool {
        true
    }

    open spec fn from_spec(v: String) -> Self {
        SlotId::spec_from_string(v)
    }
}

impl SlotId {
    /// The identifier that holds the given string.
    pub closed spec fn spec_from_string(v: String) -> Self {
        SlotId(v)
    }
}


/// Identifier of a match.
#[derive(Debug, Eq, Hash, PartialOrd, Ord)]
pub struct MatchId(String);

impl View for MatchId {
    type V = Seq<char>;

    closed spec fn view(&self) -> Seq<char> {
        self.0@
    }
}

impl MatchId {
    pub fn new(val: &str) -> (r: Self)
        ensures
            r@ == val@,
    {
        MatchId(String::from_str(val))
    }

    pub fn as_str(&self) -> (r: &str)
        ensures
            r@ == self@,
    {
        self.0.as_str()
    }

    pub fn into_inner(self) -> (r: String)
        ensures
            r@ == self@,
    {
        self.0
    }
}

impl Clone for MatchId {
    fn clone(&self) -> (r: Self)
        ensures
            r == *self,
    {
        MatchId(self.0.clone())
    }
}

impl PartialEq for MatchId {
    fn eq(&self, other: &Self) -> (r: bool) {
        self.0 == other.0
    }
}

impl vstd::std_specs::cmp::PartialEqSpecImpl for MatchId {
    open spec fn obeys_eq_spec() -> bool {
        true
    }

    open spec fn eq_spec(&self, other: &Self) -> bool {
        self@ == other@
    }
}

impl From<String> for MatchId {
    fn from(val: String) -> (r: Self) {
        MatchId(val)
    }
}

impl vstd::std_specs::convert::FromSpecImpl<String> for MatchId {
    open spec fn obeys_from_spec() -> bool {
        true
    }

    open spec fn from_spec(v: String) -> Self {
        MatchId::spec_from_string(v)
    }
}

impl MatchId {
    /// The identifier that holds the given string.
    pub closed spec fn spec_from_string(v: String) -> Self {
        MatchId(v)
    }
}


/// Identifier of a map.
#[derive(Debug, Eq, Hash, PartialOrd, Ord)]
pub struct MapId(String);

impl View for MapId {
    type V = Seq<char>;

    closed spec fn view(&self) -> Seq<char> {
        self.0@
    }
}

impl MapId {
    pub fn new(val: &str) -> (r: Self)
        ensures
            r@ == val@,
    {
        MapId(String::from_str(val))
    }

    pub fn as_str(&self) -> (r: &str)
        ensures
            r@ == self@,
    {
        self.0.as_str()
    }

    pub fn into_inner(self) -> (r: String)
        ensures
            r@ == self@,
    {
        self.0
    }
}

impl Clone for MapId {
    fn clone(&self) -> (r: Self)
        ensures
            r == *self,
    {
        MapId(self.0.clone())
    }
}

impl PartialEq for MapId {
    fn eq(&self, other: &Self) -> (r: bool) {
        self.0 == other.0
    }
}

impl vstd::std_specs::cmp::PartialEqSpecImpl for MapId {
    open spec fn obeys_eq_spec() -> bool {
        true
    }

    open spec fn eq_spec(&self, other: &Self) -> bool {
        self@ == other@
    }
}

impl From<String> for MapId {
    fn from(val: String) -> (r: Self) {
        MapId(val)
    }
}

impl vstd::std_specs::convert::FromSpecImpl<String> for MapId {
    open spec fn obeys_from_spec() -> bool {
        true
    }

    open spec fn from_spec(v: String) -> Self {
        MapId::spec_from_string(v)
    }
}

impl MapId {
    /// The identifier that holds the given string.
    pub closed spec fn spec_from_string(v: String) -> Self {
        MapId(v)
    }
}


/// Identifier of an in-match agent.
#[derive(Debug, Eq, Hash, PartialOrd, Ord)]
pub struct AgentId(String);

impl View for AgentId {
    type V = Seq<char>;

    closed spec fn view(&self) -> Seq<char> {
        self.0@
    }
}

impl AgentId {
    pub fn new(val: &str) -> (r: Self)
        ensures
            r@ == val@,
    {
        AgentId(String::from_str(val))
    }

    pub fn as_str(&self) -> (r: &str)
        ensures
            r@ == self@,
    {
        self.0.as_str()
    }

    pub fn into_inner(self) -> (r: String)
        ensures
            r@ == self@,
    {
        self.0
    }
}

impl Clone for AgentId {
    fn clone(&self) -> (r: Self)
        ensures
            r == *self,
    {
        AgentId(self.0.clone())
    }
}

impl PartialEq for AgentId {
    fn eq(&self, other: &Self) -> (r: bool) {
        self.0 == other.0
    }
}

impl vstd::std_specs::cmp::PartialEqSpecImpl for AgentId {
    open spec fn obeys_eq_spec() -> bool {
        true
    }

    open spec fn eq_spec(&self, other: &Self) -> bool {
        self@ == other@
    }
}

impl From<String> for AgentId {
    fn from(val: String) -> (r: Self) {
        AgentId(val)
    }
}

impl vstd::std_specs::convert::FromSpecImpl<String> for AgentId {
    open spec fn obeys_from_spec() -> bool {
        true
    }

    open spec fn from_spec(v: String) -> Self {
        AgentId::spec_from_string(v)
    }
}

impl AgentId {
    /// The identifier that holds the given string.
    pub closed spec fn spec_from_string(v: String) -> Self {
        AgentId(v)
    }
}


/// Identifier of a control node.
#[derive(Debug, Eq, Hash, PartialOrd, Ord)]
pub struct NodeId(String);

impl View for NodeId {
    type V = Seq<char>;

    closed spec fn view(&self) -> Seq<char> {
        self.0@
    }
}

impl NodeId {
    pub fn new(val: &str) -> (r: Self)
        ensures
            r@ == val@,
    {
        NodeId(String::from_str(val))
    }

    pub fn as_str(&self) -> (r: &str)
        ensures
            r@ == self@,
    {
        self.0.as_str()
    }

    pub fn into_inner(self) -> (r: String)
        ensures
            r@ == self@,
    {
        self.0
    }
}

impl Clone for NodeId {
    fn clone(&self) -> (r: Self)
        ensures
            r == *self,
    {
        NodeId(self.0.clone())
    }
}

impl PartialEq for NodeId {
    fn eq(&self, other: &Self) -> (r: bool) {
        self.0 == other.0
    }
}

impl vstd::std_specs::cmp::PartialEqSpecImpl for NodeId {
    open spec fn obeys_eq_spec() -> bool {
        true
    }

    open spec fn eq_spec(&self, other: &Self) -> bool {
        self@ == other@
    }
}

impl From<String> for NodeId {
    fn from(val: String) -> (r: Self) {
        NodeId(val)
    }
}

impl vstd::std_specs::convert::FromSpecImpl<String> for NodeId {
    open spec fn obeys_from_spec() -> bool {
        true
    }

    open spec fn from_spec(v: String) -> Self {
        NodeId::spec_from_string(v)
    }
}

impl NodeId {
    /// The identifier that holds the given string.
    pub closed spec fn spec_from_string(v: String) -> Self {
        NodeId(v)
    }
}


/// Identifier of a game event.
#[derive(Debug, Eq, Hash, PartialOrd, Ord)]
pub struct EventId(String);

impl View for EventId {
    type V = Seq<char>;

    closed spec fn view(&self) -> Seq<char> {
        self.0@
    }
}

impl EventId {
    pub fn new(val: &str) -> (r: Self)
        ensures
            r@ == val@,
    {
        EventId(String::from_str(val))
    }

    pub fn as_str(&self) -> (r: &str)
        ensures
            r@ == self@,
    {
        self.0.as_str()
    }

    pub fn into_inner(self) -> (r: String)
        ensures
            r@ == self@,
    {
        self.0
    }
}

impl Clone for EventId {
    fn clone(&self) -> (r: Self)
        ensures
            r == *self,
    {
        EventId(self.0.clone())
    }
}

impl PartialEq for EventId {
    fn eq(&self, other: &Self) -> (r: bool) {
        self.0 == other.0
    }
}

impl vstd::std_specs::cmp::PartialEqSpecImpl for EventId {
    open spec fn obeys_eq_spec() -> bool {
        true
    }

    open spec fn eq_spec(&self, other: &Self) -> bool {
        self@ == other@
    }
}

impl From<String> for EventId {
    fn from(val: String) -> (r: Self) {
        EventId(val)
    }
}

impl vstd::std_specs::convert::FromSpecImpl<String> for EventId {
    open spec fn obeys_from_spec() -> bool {
        true
    }

    open spec fn from_spec(v: String) -> Self {
        EventId::spec_from_string(v)
    }
}

impl EventId {
    /// The identifier that holds the given string.
    pub closed spec fn spec_from_string(v: String) -> Self {
        EventId(v)
    }
}


/// Identifier of a client command.
#[derive(Debug, Eq, Hash, PartialOrd, Ord)]
pub struct CommandId(String);

impl View for CommandId {
    type V = Seq<char>;

    closed spec fn view(&self) -> Seq<char> {
        self.0@
    }
}

impl CommandId {
    pub fn new(val: &str) -> (r: Self)
        ensures
            r@ == val@,
    {
        CommandId(String::from_str(val))
    }

    pub fn as_str(&self) -> (r: &str)
        ensures
            r@ == self@,
    {
        self.0.as_str()
    }

    pub fn into_inner(self) -> (r: String)
        ensures
            r@ == self@,
    {
        self.0
    }
}

impl Clone for CommandId {
    fn clone(&self) -> (r: Self)
        ensures
            r == *self,
    {
        CommandId(self.0.clone())
    }
}

impl PartialEq for CommandId {
    fn eq(&self, other: &Self) -> (r: bool) {
        self.0 == other.0
    }
}

impl vstd::std_specs::cmp::PartialEqSpecImpl for CommandId {
    open spec fn obeys_eq_spec() -> bool {
        true
    }

    open spec fn eq_spec(&self, other: &Self) -> bool {
        self@ == other@
    }
}

impl From<String> for CommandId {
    fn from(val: String) -> (r: Self) {
        CommandId(val)
    }
}

impl vstd::std_specs::convert::FromSpecImpl<String> for CommandId {
    open spec fn obeys_from_spec() -> bool {
        true
    }

    open spec fn from_spec(v: String) -> Self {
        CommandId::spec_from_string(v)
    }
}

impl CommandId {
    /// The identifier that holds the given string.
    pub closed spec fn spec_from_string(v: String) -> Self {
        CommandId(v)
    }
}


/// Identifier of the short code players type to find a room.
#[derive(Debug, Eq, Hash, PartialOrd, Ord)]
pub struct RoomCode(String);

impl View for RoomCode {
    type V = Seq<char>;

    closed spec fn view(&self) -> Seq<char> {
        self.0@
    }
}

impl RoomCode {
    pub fn new(val: &str) -> (r: Self)
        ensures
            r@ == val@,
    {
        RoomCode(String::from_str(val))
    }

    pub fn as_str(&self) -> (r: &str)
        ensures
            r@ == self@,
    {
        self.0.as_str()
    }

    pub fn into_inner(self) -> (r: String)
        ensures
            r@ == self@,
    {
        self.0
    }
}

impl Clone for RoomCode {
    fn clone(&self) -> (r: Self)
        ensures
            r == *self,
    {
        RoomCode(self.0.clone())
    }
}

impl PartialEq for RoomCode {
    fn eq(&self, other: &Self) -> (r: bool) {
        self.0 == other.0
    }
}

impl vstd::std_specs::cmp::PartialEqSpecImpl for RoomCode {
    open spec fn obeys_eq_spec() -> bool {
        true
    }

    open spec fn eq_spec(&self, other: &Self) -> bool {
        self@ == other@
    }
}

impl From<String> for RoomCode {
    fn from(val: String) -> (r: Self) {
        RoomCode(val)
    }
}

impl vstd::std_specs::convert::FromSpecImpl<String> for RoomCode {
    open spec fn obeys_from_spec() -> bool {
        true
    }

    open spec fn from_spec(v: String) -> Self {
        RoomCode::spec_from_string(v)
    }
}

impl RoomCode {
    /// The identifier that holds the given string.
    pub closed spec fn spec_from_string(v: String) -> Self {
        RoomCode(v)
    }
}


} // verus!
