use promptops_arena_backend::domain::ids::RoomId;
use promptops_arena_backend::event_bus::{EventBus, EventTopic, LiveEvent, RoomEvent};

#[test]
fn subscriber_receives_published_room_event() {
    let mut bus = EventBus::default();
    let room_id = RoomId::new("room_1");
    let mut subscriber = bus.subscribe(EventTopic::Room(room_id.clone()));

    bus.publish_room(&room_id, RoomEvent::RoomLocked { room_id: room_id.clone() });

    let message = subscriber.try_recv().expect("event is available");
    assert_eq!(message.topic, EventTopic::Room(room_id.clone()));
    assert_eq!(message.event, LiveEvent::Room(RoomEvent::RoomLocked { room_id }));
}

#[test]
fn admin_subscriber_receives_published_admin_event() {
    let mut bus = EventBus::default();
    let mut subscriber = bus.subscribe(EventTopic::Admin);
    let room_id = RoomId::new("room_1");

    bus.publish_admin(RoomEvent::RoomUnlocked { room_id: room_id.clone() });

    let message = subscriber.try_recv().expect("event is available");
    assert_eq!(message.topic, EventTopic::Admin);
    assert_eq!(message.event, LiveEvent::Room(RoomEvent::RoomUnlocked { room_id }));
}

#[test]
fn publish_without_subscribers_does_not_fail() {
    let mut bus = EventBus::default();

    bus.publish_admin(RoomEvent::RoomLocked { room_id: RoomId::new("room_1") });
}

// Further cases of the bus.

#[test]
fn topics_are_kept_apart() {
    let mut bus = EventBus::default();
    let first = RoomId::new("room_1");
    let second = RoomId::new("room_2");
    let mut first_subscriber = bus.subscribe(EventTopic::Room(first.clone()));
    let mut admin_subscriber = bus.subscribe(EventTopic::Admin);

    bus.publish_room(&second, RoomEvent::RoomLocked { room_id: second.clone() });
    assert!(first_subscriber.try_recv().is_err());
    assert!(admin_subscriber.try_recv().is_err());

    bus.publish_room(&first, RoomEvent::RoomUnlocked { room_id: first.clone() });
    let message = first_subscriber.try_recv().expect("event is available");
    assert_eq!(message.event, LiveEvent::Room(RoomEvent::RoomUnlocked { room_id: first }));
}

#[test]
fn two_subscribers_of_one_topic_share_its_channel() {
    let mut bus = EventBus::new(4);
    let mut a = bus.subscribe(EventTopic::Admin);
    let mut b = bus.subscribe(EventTopic::Admin);
    bus.publish(EventTopic::Admin, LiveEvent::Room(RoomEvent::RoomLocked { room_id: RoomId::new("r") }));
    assert_eq!(a.try_recv().unwrap().topic, EventTopic::Admin);
    assert_eq!(b.try_recv().unwrap().topic, EventTopic::Admin);
}

#[test]
fn messages_published_before_subscribing_are_not_received() {
    let mut bus = EventBus::default();
    bus.publish_admin(RoomEvent::RoomLocked { room_id: RoomId::new("r") });
    let mut subscriber = bus.subscribe(EventTopic::Admin);
    assert!(subscriber.try_recv().is_err());
}
