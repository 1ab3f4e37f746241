//! Live event bus: one broadcast channel per topic, for room and admin updates.
//!
//! A topic's channel is opened the first time anyone subscribes to it or publishes
//! on it; a message sent while nobody listens is dropped.

use tokio::sync::broadcast::{Receiver, Sender};
use vstd::prelude::*;

use crate::domain::ids::{PlayerId, RoomCode, RoomId, SlotId};
use crate::domain::player::Player;
use crate::domain::room::{Room, RoomStatus};
use crate::seqs::{first_index, lemma_first_index, lemma_first_index_is, lemma_first_index_none};

verus! {

/// Where a message is published: the admin dashboard or one room.
#[derive(Debug, Eq, Hash)]
pub enum EventTopic {
    Admin,
    Room(RoomId),
}

impl PartialEq for EventTopic {
    fn eq(&self, other: &Self) -> (r: bool) {
        match (self, other) {
            (EventTopic::Admin, EventTopic::Admin) => true,
            (EventTopic::Room(a), EventTopic::Room(b)) => *a == *b,
            _ => false,
        }
    }
}

impl vstd::std_specs::cmp::PartialEqSpecImpl for EventTopic {
    open spec fn obeys_eq_spec() -> bool {
        true
    }

    open spec fn eq_spec(&self, other: &Self) -> bool {
        match (*self, *other) {
            (EventTopic::Admin, EventTopic::Admin) => true,
            (EventTopic::Room(a), EventTopic::Room(b)) => a@ == b@,
            _ => false,
        }
    }
}

impl Clone for EventTopic {
    fn clone(&self) -> (r: Self)
        ensures
            r == *self,
    {
        match self {
            EventTopic::Admin => EventTopic::Admin,
            EventTopic::Room(id) => EventTopic::Room(id.clone()),
        }
    }
}

/// A published message: its topic and its event.
#[derive(Debug, PartialEq, Eq)]
pub struct EventMessage {
    pub topic: EventTopic,
    pub event: LiveEvent,
}

impl Clone for EventMessage {
    fn clone(&self) -> (r: Self)
        ensures
            r == *self,
    {
        EventMessage { topic: self.topic.clone(), event: self.event.clone() }
    }
}

/// The events the bus carries.
#[derive(Debug, PartialEq, Eq)]
pub enum LiveEvent {
    Room(RoomEvent),
}

impl Clone for LiveEvent {
    fn clone(&self) -> (r: Self)
        ensures
            r == *self,
    {
        match self {
            LiveEvent::Room(e) => LiveEvent::Room(e.clone()),
        }
    }
}

/// What happened in a room.
#[derive(Debug, PartialEq, Eq)]
pub enum RoomEvent {
    RoomCreated { room: RoomSummary },
    PlayerJoined { room_id: RoomId, player: PublicPlayer },
    PlayerLeft { room_id: RoomId, player_id: PlayerId },
    PlayerRenamed { room_id: RoomId, player_id: PlayerId, display_name: String },
    SlotClaimed { room_id: RoomId, slot_id: SlotId, player_id: PlayerId },
    SlotReleased { room_id: RoomId, slot_id: SlotId },
    SlotPromptUpdated { room_id: RoomId, slot_id: SlotId, updated_by: PlayerId },
    RoomLocked { room_id: RoomId },
    RoomUnlocked { room_id: RoomId },
}

impl Clone for RoomEvent {
    fn clone(&self) -> (r: Self)
        ensures
            r == *self,
    {
        match self {
            RoomEvent::RoomCreated { room } => RoomEvent::RoomCreated { room: room.clone() },
            RoomEvent::PlayerJoined { room_id, player } => RoomEvent::PlayerJoined {
                room_id: room_id.clone(),
                player: player.clone(),
            },
            RoomEvent::PlayerLeft { room_id, player_id } => RoomEvent::PlayerLeft {
                room_id: room_id.clone(),
                player_id: player_id.clone(),
            },
            RoomEvent::PlayerRenamed { room_id, player_id, display_name } => RoomEvent::PlayerRenamed {
                room_id: room_id.clone(),
                player_id: player_id.clone(),
                display_name: display_name.clone(),
            },
            RoomEvent::SlotClaimed { room_id, slot_id, player_id } => RoomEvent::SlotClaimed {
                room_id: room_id.clone(),
                slot_id: slot_id.clone(),
                player_id: player_id.clone(),
            },
            RoomEvent::SlotReleased { room_id, slot_id } => RoomEvent::SlotReleased {
                room_id: room_id.clone(),
                slot_id: slot_id.clone(),
            },
            RoomEvent::SlotPromptUpdated { room_id, slot_id, updated_by } => RoomEvent::SlotPromptUpdated {
                room_id: room_id.clone(),
                slot_id: slot_id.clone(),
                updated_by: updated_by.clone(),
            },
            RoomEvent::RoomLocked { room_id } => RoomEvent::RoomLocked { room_id: room_id.clone() },
            RoomEvent::RoomUnlocked { room_id } => RoomEvent::RoomUnlocked { room_id: room_id.clone() },
        }
    }
}

/// What the admin dashboard shows of a room.
#[derive(Debug, PartialEq, Eq)]
pub struct RoomSummary {
    pub id: RoomId,
    pub code: RoomCode,
    pub status: RoomStatus,
    pub version: u64,
    pub player_count: usize,
}

impl Clone for RoomSummary {
    fn clone(&self) -> (r: Self)
        ensures
            r == *self,
    {
        RoomSummary {
            id: self.id.clone(),
            code: self.code.clone(),
            status: self.status,
            version: self.version,
            player_count: self.player_count,
        }
    }
}

/// What a room's players see of each other.
#[derive(Debug, PartialEq, Eq)]
pub struct PublicPlayer {
    pub id: PlayerId,
    pub display_name: String,
}

impl Clone for PublicPlayer {
    fn clone(&self) -> (r: Self)
        ensures
            r == *self,
    {
        PublicPlayer { id: self.id.clone(), display_name: self.display_name.clone() }
    }
}

/// The summary of a room.
pub open spec fn spec_room_summary(room: Room) -> RoomSummary {
    RoomSummary {
        id: room.id,
        code: room.code,
        status: room.status,
        version: room.version,
        player_count: room.players@.len() as usize,
    }
}

impl<'a> From<&'a Room> for RoomSummary {
    fn from(room: &'a Room) -> (r: Self) {
        Self {
            id: room.id.clone(),
            code: room.code.clone(),
            status: room.status,
            version: room.version,
            player_count: room.players.len(),
        }
    }
}

impl<'a> vstd::std_specs::convert::FromSpecImpl<&'a Room> for RoomSummary {
    open spec fn obeys_from_spec() -> bool {
        true
    }

    open spec fn from_spec(room: &'a Room) -> Self {
        spec_room_summary(*room)
    }
}

/// The public part of a player.
pub open spec fn spec_public_player(player: Player) -> PublicPlayer {
    PublicPlayer { id: player.id, display_name: player.display_name }
}

impl<'a> From<&'a Player> for PublicPlayer {
    fn from(player: &'a Player) -> (r: Self) {
        Self { id: player.id.clone(), display_name: player.display_name.clone() }
    }
}

impl<'a> vstd::std_specs::convert::FromSpecImpl<&'a Player> for PublicPlayer {
    open spec fn obeys_from_spec() -> bool {
        true
    }

    open spec fn from_spec(player: &'a Player) -> Self {
        spec_public_player(*player)
    }
}

#[verifier::external_type_specification]
#[verifier::external_body]
#[verifier::reject_recursive_types(T)]
pub struct ExSender<T>(Sender<T>);

#[verifier::external_type_specification]
#[verifier::external_body]
#[verifier::reject_recursive_types(T)]
pub struct ExReceiver<T>(Receiver<T>);

/// The messages handed to the channel of `sender` through `send_on`, oldest first.
///
/// A receiver is offered those handed over after it subscribed; it loses the oldest
/// ones when it falls more than the channel's capacity behind, and a message handed
/// over while nobody listens is kept by no one. What a receiver gets is left unsaid.
pub uninterp spec fn channel_messages(sender: Sender<EventMessage>) -> Seq<EventMessage>;

/// Whether `receiver` reads the channel that `sender` sends on.
pub uninterp spec fn reads_channel(receiver: Receiver<EventMessage>, sender: Sender<EventMessage>) -> bool;

/// The position, among the messages of the channel it reads, of the first message
/// `receiver` is offered: those handed over before it subscribed are not.
pub uninterp spec fn first_offered(receiver: Receiver<EventMessage>) -> int;

/// Calls `tokio::sync::broadcast::channel` and keeps the sending half. The call
/// panics on a capacity of zero or above `usize::MAX / 2`, which `requires` leaves
/// out. The contract claims that nothing has been sent on the new channel.
#[verifier::external_body]
fn open_channel(capacity: usize) -> (r: Sender<EventMessage>)
    requires
        0 < capacity <= usize::MAX / 2,
    ensures
        channel_messages(r) == Seq::<EventMessage>::empty(),
{
    let (sender, _receiver) = tokio::sync::broadcast::channel(capacity);
    sender
}

/// Calls `tokio::sync::broadcast::Sender::subscribe`. The contract claims that the
/// receiver reads the sender's channel (the call makes it from the sender's shared
/// state) and starts after the messages already handed to it (the call sets the
/// receiver's next position to the channel's tail).
#[verifier::external_body]
fn subscribe_to(sender: &Sender<EventMessage>) -> (r: Receiver<EventMessage>)
    ensures
        reads_channel(r, *sender),
        first_offered(r) == channel_messages(*sender).len(),
{
    sender.subscribe()
}

/// Calls `tokio::sync::broadcast::Sender::send` and drops its result, which only
/// says whether any receiver was listening. The contract claims that the message is
/// handed to the sender's channel and that the channel's receivers still read it;
/// whether a receiver gets the message is left unsaid.
#[verifier::external_body]
fn send_on(sender: &mut Sender<EventMessage>, message: EventMessage)
    ensures
        channel_messages(*final(sender)) == channel_messages(*old(sender)).push(message),
        forall|r: Receiver<EventMessage>| reads_channel(r, *old(sender)) ==> reads_channel(r, *final(sender)),
{
    let _ = sender.send(message);
}

/// How many messages a topic's channel holds for a slow subscriber unless configured otherwise.
pub const DEFAULT_CHANNEL_CAPACITY: usize = 128;

/// Whether two topics are the same topic.
pub open spec fn same_topic(a: EventTopic, b: EventTopic) -> bool {
    match (a, b) {
        (EventTopic::Admin, EventTopic::Admin) => true,
        (EventTopic::Room(x), EventTopic::Room(y)) => x@ == y@,
        _ => false,
    }
}

/// Matches the given topic.
pub open spec fn topic_is(t: EventTopic) -> spec_fn(EventTopic) -> bool {
    |x: EventTopic| same_topic(x, t)
}

/// The position of a topic among the opened ones, or -1.
pub open spec fn topic_index(topics: Seq<EventTopic>, t: EventTopic) -> int {
    first_index(topics, topic_is(t))
}

/// No topic has two channels.
pub open spec fn topics_unique(topics: Seq<EventTopic>) -> bool {
    forall|i: int, j: int| 0 <= i < topics.len() && 0 <= j < topics.len() && i != j ==> !same_topic(#[trigger] topics[i], #[trigger] topics[j])
}

/// A channel capacity that the broadcast channel takes.
pub open spec fn capacity_ok(capacity: usize) -> bool {
    0 < capacity <= usize::MAX / 2
}

/// The bus: the capacity of new channels and the channel of each opened topic.
pub struct EventBus {
    channel_capacity: usize,
    channels: Vec<(EventTopic, Sender<EventMessage>)>,
}

/// The topics after `t` is used: unchanged when `t` has a channel, else with `t` at the end.
pub open spec fn topics_after(topics: Seq<EventTopic>, t: EventTopic) -> Seq<EventTopic> {
    if topic_index(topics, t) >= 0 {
        topics
    } else {
        topics.push(t)
    }
}

/// The channels of the bus after `t` is subscribed to: a new, empty channel for `t` at
/// the end when it had none; the channels already open stay as they were.
pub open spec fn opened_for(old: EventBus, new: EventBus, t: EventTopic) -> bool {
    &&& new.channel_capacity() == old.channel_capacity()
    &&& new.topics() == topics_after(old.topics(), t)
    &&& new.senders().len() == new.topics().len()
    &&& new.senders().take(old.senders().len() as int) == old.senders()
    &&& topic_index(old.topics(), t) < 0 ==> channel_messages(new.senders().last()) == Seq::<EventMessage>::empty()
}

/// The bus after `message` is published on `t`: the channel of `t` (opened if need be)
/// has been handed the message and its receivers still read it; every other channel
/// stays as it was.
pub open spec fn published_on(old: EventBus, new: EventBus, t: EventTopic, message: EventMessage) -> bool {
    let i = topic_index(new.topics(), t);
    &&& new.channel_capacity() == old.channel_capacity()
    &&& new.topics() == topics_after(old.topics(), t)
    &&& new.senders().len() == new.topics().len()
    &&& 0 <= i < new.senders().len()
    &&& forall|k: int| 0 <= k < new.senders().len() && k != i ==> new.senders()[k] == old.senders()[k]
    &&& channel_messages(new.senders()[i]) == (if i < old.senders().len() {
        channel_messages(old.senders()[i])
    } else {
        Seq::<EventMessage>::empty()
    }).push(message)
    &&& forall|r: Receiver<EventMessage>|
        i < old.senders().len() && reads_channel(r, old.senders()[i]) ==> reads_channel(r, new.senders()[i])
}

/// A channel can be found or opened for `t`: it has one, or the capacity is one the
/// broadcast channel takes.
pub open spec fn can_open(bus: EventBus, t: EventTopic) -> bool {
    topic_index(bus.topics(), t) >= 0 || capacity_ok(bus.channel_capacity())
}

impl EventBus {
    #[verifier::type_invariant]
    spec fn inv(self) -> bool {
        topics_unique(self.topics())
    }

    /// The capacity each new channel gets.
    pub closed spec fn channel_capacity(self) -> usize {
        self.channel_capacity
    }

    /// The topics with an open channel, in the order they were opened.
    pub closed spec fn topics(self) -> Seq<EventTopic> {
        self.channels@.map_values(|c: (EventTopic, Sender<EventMessage>)| c.0)
    }

    /// The sending halves of the open channels, in the same order.
    pub closed spec fn senders(self) -> Seq<Sender<EventMessage>> {
        self.channels@.map_values(|c: (EventTopic, Sender<EventMessage>)| c.1)
    }

    /// A bus whose channels hold `channel_capacity` messages each.
    #[must_use]
    pub fn new(channel_capacity: usize) -> (r: Self)
        ensures
            r.channel_capacity() == channel_capacity,
            r.topics().len() == 0,
            r.senders().len() == 0,
    {
        let r = Self { channel_capacity, channels: Vec::new() };
        assert(r.topics() =~= Seq::<EventTopic>::empty());
        assert(r.senders() =~= Seq::<Sender<EventMessage>>::empty());
        r
    }

    /// The capacity each new channel gets.
    pub fn capacity(&self) -> (r: usize)
        ensures
            r == self.channel_capacity(),
    {
        self.channel_capacity
    }

    /// A receiver for the messages published on `topic` from now on: it reads the
    /// channel of `topic`, opened if need be, from the next message on.
    #[must_use]
    pub fn subscribe(&mut self, topic: EventTopic) -> (r: Receiver<EventMessage>)
        requires
            can_open(*old(self), topic),
        ensures
            opened_for(*old(self), *final(self), topic),
            reads_channel(r, final(self).senders()[topic_index(final(self).topics(), topic)]),
            first_offered(r) == channel_messages(final(self).senders()[topic_index(final(self).topics(), topic)]).len(),
    {
        let i = self.sender(&topic);
        proof {
            use_type_invariant(&*self);
        }
        subscribe_to(&self.channels[i].1)
    }

    /// Publishes a room event on the admin topic.
    pub fn publish_admin(&mut self, event: RoomEvent)
        requires
            can_open(*old(self), EventTopic::Admin),
        ensures
            published_on(
                *old(self),
                *final(self),
                EventTopic::Admin,
                EventMessage { topic: EventTopic::Admin, event: LiveEvent::Room(event) },
            ),
    {
        self.publish(EventTopic::Admin, LiveEvent::Room(event));
    }

    /// Publishes a room event on the topic of room `room_id`.
    pub fn publish_room(&mut self, room_id: &RoomId, event: RoomEvent)
        requires
            can_open(*old(self), EventTopic::Room(*room_id)),
        ensures
            published_on(
                *old(self),
                *final(self),
                EventTopic::Room(*room_id),
                EventMessage { topic: EventTopic::Room(*room_id), event: LiveEvent::Room(event) },
            ),
    {
        self.publish(EventTopic::Room(room_id.clone()), LiveEvent::Room(event));
    }

    /// Publishes `event` on `topic`: the message goes to the channel of `topic`, which
    /// is opened if need be; nobody listening is no error.
    pub fn publish(&mut self, topic: EventTopic, event: LiveEvent)
        requires
            can_open(*old(self), topic),
        ensures
            published_on(*old(self), *final(self), topic, EventMessage { topic, event }),
    {
        let message = EventMessage { topic: topic.clone(), event };
        let ghost before = *self;
        let i = self.sender(&topic);
        proof {
            use_type_invariant(&*self);
        }
        let ghost mid = *self;
        let mut channels: Vec<(EventTopic, Sender<EventMessage>)> = Vec::new();
        std::mem::swap(&mut channels, &mut self.channels);
        let ghost cs = channels@;
        let (t, mut sender) = channels.remove(i);
        send_on(&mut sender, message);
        channels.insert(i, (t, sender));
        proof {
            let nt = channels@.map_values(|c: (EventTopic, Sender<EventMessage>)| c.0);
            let ns = channels@.map_values(|c: (EventTopic, Sender<EventMessage>)| c.1);
            assert(channels@ =~= cs.update(i as int, (t, sender)));
            assert(nt =~= mid.topics());
            assert forall|k: int| 0 <= k < ns.len() && k != i implies ns[k] == mid.senders()[k] by {}
        }
        self.channels = channels;
        proof {
            assert(self.topics() == mid.topics());
            assert forall|k: int| 0 <= k < self.senders().len() && k != i implies self.senders()[k] == before.senders()[k] by {
                assert(self.senders()[k] == mid.senders()[k]);
                if k < before.senders().len() {
                    assert(mid.senders().take(before.senders().len() as int)[k] == mid.senders()[k]);
                }
            }
            if i < before.senders().len() {
                assert(mid.senders().take(before.senders().len() as int)[i as int] == mid.senders()[i as int]);
            } else {
                assert(mid.senders().last() == mid.senders()[i as int]);
            }
        }
    }

    /// The index of the channel of `topic`, opened if it has none yet.
    fn sender(&mut self, topic: &EventTopic) -> (r: usize)
        requires
            can_open(*old(self), *topic),
        ensures
            opened_for(*old(self), *final(self), *topic),
            r < final(self).channels@.len(),
            r == topic_index(final(self).topics(), *topic),
            final(self).channels@[r as int].1 == final(self).senders()[r as int],
            r < old(self).senders().len() ==> r == topic_index(old(self).topics(), *topic),
            r >= old(self).senders().len() ==> topic_index(old(self).topics(), *topic) < 0 && r == old(self).senders().len(),
    {
        proof {
            use_type_invariant(&*self);
        }
        let ghost ts = self.topics();
        let mut i: usize = 0;
        while i < self.channels.len()
            invariant
                ts == self.topics(),
                ts.len() == self.channels@.len(),
                i <= ts.len(),
                forall|k: int| 0 <= k < i ==> !topic_is(*topic)(#[trigger] ts[k]),
            decreases ts.len() - i,
        {
            assert(ts[i as int] == self.channels@[i as int].0);
            if self.channels[i].0 == *topic {
                proof {
                    lemma_first_index_is(ts, topic_is(*topic), i as int);
                    assert(self.senders().take(self.senders().len() as int) =~= self.senders());
                }
                return i;
            }
            i = i + 1;
        }
        proof {
            lemma_first_index_none(ts, topic_is(*topic));
        }
        let sender = open_channel(self.channel_capacity);
        let n = self.channels.len();
        let mut channels: Vec<(EventTopic, Sender<EventMessage>)> = Vec::new();
        std::mem::swap(&mut channels, &mut self.channels);
        let ghost old_channels = channels@;
        channels.push((topic.clone(), sender));
        proof {
            let nt = channels@.map_values(|c: (EventTopic, Sender<EventMessage>)| c.0);
            assert(nt =~= ts.push(*topic));
            assert forall|a: int, b: int| 0 <= a < nt.len() && 0 <= b < nt.len() && a != b implies !same_topic(
                #[trigger] nt[a],
                #[trigger] nt[b],
            ) by {
                if a == ts.len() {
                    assert(!topic_is(*topic)(ts[b]));
                } else if b == ts.len() {
                    assert(!topic_is(*topic)(ts[a]));
                }
            }
            assert(channels@.map_values(|c: (EventTopic, Sender<EventMessage>)| c.1).take(old_channels.len() as int)
                =~= old_channels.map_values(|c: (EventTopic, Sender<EventMessage>)| c.1));
            assert forall|k: int| 0 <= k < ts.len() implies !topic_is(*topic)(#[trigger] nt[k]) by {
                assert(nt[k] == ts[k]);
            }
            lemma_first_index_is(nt, topic_is(*topic), ts.len() as int);
        }
        self.channels = channels;
        n
    }
}

impl Default for EventBus {
    fn default() -> (r: Self)
        ensures
            r.channel_capacity() == DEFAULT_CHANNEL_CAPACITY,
            r.topics().len() == 0,
            r.senders().len() == 0,
    {
        Self::new(DEFAULT_CHANNEL_CAPACITY)
    }
}

/// Using a topic that has a channel leaves its position among the topics as it was.
proof fn lemma_topic_kept(topics: Seq<EventTopic>, t: EventTopic, u: EventTopic)
    requires
        topic_index(topics, t) >= 0,
    ensures
        topic_index(topics_after(topics, u), t) == topic_index(topics, t),
        topics_after(topics, u).len() >= topics.len(),
        forall|k: int| 0 <= k < topics.len() ==> #[trigger] topics_after(topics, u)[k] == topics[k],
{
    lemma_first_index(topics, topic_is(t));
    lemma_first_index(topics, topic_is(u));
    let after = topics_after(topics, u);
    if topic_index(topics, u) < 0 {
        assert forall|k: int| 0 <= k < topic_index(topics, t) implies !topic_is(t)(#[trigger] after[k]) by {
            assert(after[k] == topics[k]);
        }
        assert(after[topic_index(topics, t)] == topics[topic_index(topics, t)]);
        lemma_first_index_is(after, topic_is(t), topic_index(topics, t));
    }
}

/// After a topic is used, it has a channel.
proof fn lemma_topic_used(topics: Seq<EventTopic>, t: EventTopic)
    ensures
        0 <= topic_index(topics_after(topics, t), t) < topics_after(topics, t).len(),
        topic_index(topics, t) >= 0 ==> topic_index(topics_after(topics, t), t) == topic_index(topics, t),
        topic_index(topics, t) < 0 ==> topic_index(topics_after(topics, t), t) == topics.len(),
{
    lemma_first_index(topics, topic_is(t));
    if topic_index(topics, t) < 0 {
        let after = topics.push(t);
        assert forall|k: int| 0 <= k < topics.len() implies !topic_is(t)(#[trigger] after[k]) by {
            assert(after[k] == topics[k]);
        }
        lemma_first_index_is(after, topic_is(t), topics.len() as int);
    }
}

/// A receiver of an open channel keeps reading it through a publication: the channel
/// is handed the message when it belongs to the topic published on, and stays as it
/// was otherwise.
pub proof fn lemma_reader_after_publish(
    b1: EventBus,
    b2: EventBus,
    t: EventTopic,
    r: Receiver<EventMessage>,
    u: EventTopic,
    m: EventMessage,
)
    requires
        0 <= topic_index(b1.topics(), t) < b1.senders().len(),
        reads_channel(r, b1.senders()[topic_index(b1.topics(), t)]),
        published_on(b1, b2, u, m),
    ensures
        0 <= topic_index(b2.topics(), t) < b2.senders().len(),
        reads_channel(r, b2.senders()[topic_index(b2.topics(), t)]),
        channel_messages(b2.senders()[topic_index(b2.topics(), t)]) == if same_topic(u, t) {
            channel_messages(b1.senders()[topic_index(b1.topics(), t)]).push(m)
        } else {
            channel_messages(b1.senders()[topic_index(b1.topics(), t)])
        },
{
    let i = topic_index(b1.topics(), t);
    lemma_topic_kept(b1.topics(), t, u);
    lemma_topic_used(b1.topics(), u);
    let j = topic_index(b2.topics(), u);
    lemma_first_index(b2.topics(), topic_is(u));
    lemma_first_index(b2.topics(), topic_is(t));
    if same_topic(u, t) {
        assert(j == i) by {
            assert(same_topic(b2.topics()[i], t));
            if j < i {
                assert(same_topic(b2.topics()[j], u));
            } else if j > i {
                assert(same_topic(b2.topics()[i], u));
            }
        }
    } else {
        assert(j != i) by {
            assert(same_topic(b2.topics()[i], t));
            if j == i {
                assert(same_topic(b2.topics()[j], u));
            }
        }
    }
}


/// A subscriber of a topic reads the channel that what is published on the topic
/// afterwards is handed to, and a publication on another topic leaves that channel
/// as it was: the first message the subscriber is offered is the first one published
/// on its topic after it subscribed.
pub proof fn law_subscriber_reads_what_is_published(
    b0: EventBus,
    b1: EventBus,
    b2: EventBus,
    t: EventTopic,
    r: Receiver<EventMessage>,
    u: EventTopic,
    m: EventMessage,
)
    requires
        opened_for(b0, b1, t),
        reads_channel(r, b1.senders()[topic_index(b1.topics(), t)]),
        first_offered(r) == channel_messages(b1.senders()[topic_index(b1.topics(), t)]).len(),
        published_on(b1, b2, u, m),
    ensures
        0 <= topic_index(b2.topics(), t) < b2.senders().len(),
        reads_channel(r, b2.senders()[topic_index(b2.topics(), t)]),
        channel_messages(b2.senders()[topic_index(b2.topics(), t)]) == if same_topic(u, t) {
            channel_messages(b1.senders()[topic_index(b1.topics(), t)]).push(m)
        } else {
            channel_messages(b1.senders()[topic_index(b1.topics(), t)])
        },
        same_topic(u, t) ==> channel_messages(b2.senders()[topic_index(b2.topics(), t)])[first_offered(r)] == m,
        !same_topic(u, t) ==> first_offered(r) == channel_messages(b2.senders()[topic_index(b2.topics(), t)]).len(),
{
    lemma_topic_used(b0.topics(), t);
    lemma_reader_after_publish(b1, b2, t, r, u, m);
}

/// What is published on one room's topic, or on the admin topic, never reaches a
/// subscriber of another room: its channel stays as it was, and it still waits for its
/// first message.
pub proof fn law_room_subscriber_misses_other_topics(
    b0: EventBus,
    b1: EventBus,
    b2: EventBus,
    room_id: RoomId,
    r: Receiver<EventMessage>,
    u: EventTopic,
    m: EventMessage,
)
    requires
        opened_for(b0, b1, EventTopic::Room(room_id)),
        reads_channel(r, b1.senders()[topic_index(b1.topics(), EventTopic::Room(room_id))]),
        first_offered(r) == channel_messages(b1.senders()[topic_index(b1.topics(), EventTopic::Room(room_id))]).len(),
        published_on(b1, b2, u, m),
        u == EventTopic::Admin || (u is Room && u->Room_0@ != room_id@),
    ensures
        reads_channel(r, b2.senders()[topic_index(b2.topics(), EventTopic::Room(room_id))]),
        channel_messages(b2.senders()[topic_index(b2.topics(), EventTopic::Room(room_id))]) == channel_messages(
            b1.senders()[topic_index(b1.topics(), EventTopic::Room(room_id))],
        ),
        first_offered(r) == channel_messages(b2.senders()[topic_index(b2.topics(), EventTopic::Room(room_id))]).len(),
{
    law_subscriber_reads_what_is_published(b0, b1, b2, EventTopic::Room(room_id), r, u, m);
}

/// What is published on a room's topic reaches a subscriber of that room: it is the
/// first message offered to a subscriber that came before it.
pub proof fn law_room_subscriber_gets_its_rooms_messages(
    b0: EventBus,
    b1: EventBus,
    b2: EventBus,
    room_id: RoomId,
    r: Receiver<EventMessage>,
    other: RoomId,
    m: EventMessage,
)
    requires
        opened_for(b0, b1, EventTopic::Room(room_id)),
        reads_channel(r, b1.senders()[topic_index(b1.topics(), EventTopic::Room(room_id))]),
        first_offered(r) == channel_messages(b1.senders()[topic_index(b1.topics(), EventTopic::Room(room_id))]).len(),
        published_on(b1, b2, EventTopic::Room(other), m),
        other@ == room_id@,
    ensures
        reads_channel(r, b2.senders()[topic_index(b2.topics(), EventTopic::Room(room_id))]),
        channel_messages(b2.senders()[topic_index(b2.topics(), EventTopic::Room(room_id))]).len() == first_offered(r) + 1,
        channel_messages(b2.senders()[topic_index(b2.topics(), EventTopic::Room(room_id))])[first_offered(r)] == m,
{
    law_subscriber_reads_what_is_published(b0, b1, b2, EventTopic::Room(room_id), r, EventTopic::Room(other), m);
}

} // verus!
