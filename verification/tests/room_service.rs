use std::collections::hash_map::DefaultHasher;
use std::hash::{Hash, Hasher};

use promptops_arena_backend::domain::error::DomainError;
use promptops_arena_backend::domain::ids::{PlayerId, RoomCode, RoomId};
use promptops_arena_backend::domain::room::RoomStatus;
use promptops_arena_backend::domain::slot::RoleName;
use promptops_arena_backend::event_bus::{
    EventBus, EventMessage, EventTopic, LiveEvent, PublicPlayer, RoomEvent, RoomSummary,
};
use promptops_arena_backend::persistence::memory::MemoryPersistence;
use promptops_arena_backend::persistence::traits::{CreateRoomInput, RepoError};
use promptops_arena_backend::services::room::{RoomService, RoomServiceError};
use tokio::sync::broadcast::Receiver;

const NOW: u64 = 1_700_000_000;

fn service() -> RoomService {
    RoomService::new(MemoryPersistence::new())
}

fn second_player() -> PlayerId {
    PlayerId::new("missing_player")
}

fn assert_next_event(subscriber: &mut Receiver<EventMessage>, topic: EventTopic, event: RoomEvent) {
    let message = subscriber.try_recv().expect("room event is available");
    assert_eq!(message.topic, topic);
    assert_eq!(message.event, LiveEvent::Room(event));
}

#[test]
fn create_room_creates_teams_and_slots() {
    let mut service = service();
    let mut next_id: u64 = 1;

    let room = service.create_room(&mut next_id, NOW).expect("room creation succeeds");

    assert_eq!(room.status, RoomStatus::Open);
    assert_eq!(room.teams.len(), 2);
    assert_eq!(room.slots.len(), RoleName::ALL.len() * 2);
    assert!(room.players.is_empty());
}

#[test]
fn create_room_publishes_admin_event() {
    let mut service = service();
    let mut next_id: u64 = 1;
    let mut admin_subscriber = service.subscribe(EventTopic::Admin);

    let room = service.create_room(&mut next_id, NOW).expect("room creation succeeds");

    let message = admin_subscriber.try_recv().expect("admin event is available");
    assert_eq!(message.topic, EventTopic::Admin);
    assert_eq!(message.event, LiveEvent::Room(RoomEvent::RoomCreated { room: (&room).into() }));
}

#[test]
fn join_room_returns_player_and_token_without_storing_raw_token() {
    let mut service = service();
    let mut next_id: u64 = 1;
    let room = service.create_room(&mut next_id, NOW).expect("room creation succeeds");

    let joined = service.join_room(&room.id, " Ada ", &mut next_id, NOW).expect("join succeeds");

    assert_eq!(joined.player.display_name, "Ada");
    assert!(!joined.token.is_empty());
    assert_ne!(joined.player.token_hash, joined.token);
    assert_eq!(joined.room.players[0].token_hash, joined.player.token_hash);
}

#[test]
fn join_room_publishes_room_event() {
    let mut service = service();
    let mut next_id: u64 = 1;
    let room = service.create_room(&mut next_id, NOW).expect("room creation succeeds");
    let mut room_subscriber = service.subscribe(EventTopic::Room(room.id.clone()));

    let joined = service.join_room(&room.id, "Ada", &mut next_id, NOW).expect("join succeeds");

    let message = room_subscriber.try_recv().expect("room event is available");
    assert_eq!(message.topic, EventTopic::Room(room.id.clone()));
    assert_eq!(
        message.event,
        LiveEvent::Room(RoomEvent::PlayerJoined { room_id: room.id, player: (&joined.player).into() })
    );
}

#[test]
fn service_actions_publish_room_and_admin_events() {
    let mut service = service();
    let mut next_id: u64 = 1;
    let mut admin_subscriber = service.subscribe(EventTopic::Admin);
    let room = service.create_room(&mut next_id, NOW).expect("room creation succeeds");
    let mut room_subscriber = service.subscribe(EventTopic::Room(room.id.clone()));
    let room_topic = EventTopic::Room(room.id.clone());
    let room_created = RoomEvent::RoomCreated { room: (&room).into() };

    assert_next_event(&mut admin_subscriber, EventTopic::Admin, room_created);

    let joined = service.join_room(&room.id, "Ada", &mut next_id, NOW).expect("join succeeds");
    let player_joined = RoomEvent::PlayerJoined { room_id: room.id.clone(), player: (&joined.player).into() };
    assert_next_event(&mut room_subscriber, room_topic.clone(), player_joined.clone());
    assert_next_event(&mut admin_subscriber, EventTopic::Admin, player_joined);

    let slot_id = room.slots[0].id.clone();
    service.claim_slot(&room.id, &joined.player.id, &slot_id).expect("claim succeeds");
    let slot_claimed =
        RoomEvent::SlotClaimed { room_id: room.id.clone(), slot_id: slot_id.clone(), player_id: joined.player.id.clone() };
    assert_next_event(&mut room_subscriber, room_topic.clone(), slot_claimed.clone());
    assert_next_event(&mut admin_subscriber, EventTopic::Admin, slot_claimed);

    service.update_prompt(&room.id, &joined.player.id, &slot_id, "Hold north").expect("prompt update succeeds");
    let prompt_updated = RoomEvent::SlotPromptUpdated {
        room_id: room.id.clone(),
        slot_id: slot_id.clone(),
        updated_by: joined.player.id.clone(),
    };
    assert_next_event(&mut room_subscriber, room_topic.clone(), prompt_updated.clone());
    assert_next_event(&mut admin_subscriber, EventTopic::Admin, prompt_updated);

    service.rename_player(&room.id, &joined.player.id, "Grace").expect("rename succeeds");
    let player_renamed = RoomEvent::PlayerRenamed {
        room_id: room.id.clone(),
        player_id: joined.player.id.clone(),
        display_name: "Grace".to_owned(),
    };
    assert_next_event(&mut room_subscriber, room_topic.clone(), player_renamed.clone());
    assert_next_event(&mut admin_subscriber, EventTopic::Admin, player_renamed);

    service.release_slot(&room.id, &joined.player.id, &slot_id).expect("release succeeds");
    let slot_released = RoomEvent::SlotReleased { room_id: room.id.clone(), slot_id };
    assert_next_event(&mut room_subscriber, room_topic.clone(), slot_released.clone());
    assert_next_event(&mut admin_subscriber, EventTopic::Admin, slot_released);

    service.lock_room(&room.id).expect("lock succeeds");
    let room_locked = RoomEvent::RoomLocked { room_id: room.id.clone() };
    assert_next_event(&mut room_subscriber, room_topic.clone(), room_locked.clone());
    assert_next_event(&mut admin_subscriber, EventTopic::Admin, room_locked);

    service.unlock_room(&room.id).expect("unlock succeeds");
    let room_unlocked = RoomEvent::RoomUnlocked { room_id: room.id.clone() };
    assert_next_event(&mut room_subscriber, room_topic.clone(), room_unlocked.clone());
    assert_next_event(&mut admin_subscriber, EventTopic::Admin, room_unlocked);

    service.leave_room(&room.id, &joined.player.id).expect("leave succeeds");
    let player_left = RoomEvent::PlayerLeft { room_id: room.id, player_id: joined.player.id };
    assert_next_event(&mut room_subscriber, room_topic, player_left.clone());
    assert_next_event(&mut admin_subscriber, EventTopic::Admin, player_left);
}

#[test]
fn lagging_room_subscriber_does_not_fail_service_actions() {
    let mut service = RoomService::with_event_bus(MemoryPersistence::new(), EventBus::new(1));
    let mut next_id: u64 = 1;
    let room = service.create_room(&mut next_id, NOW).expect("room creation succeeds");
    let mut room_subscriber = service.subscribe(EventTopic::Room(room.id.clone()));

    let joined = service.join_room(&room.id, "Ada", &mut next_id, NOW).expect("join succeeds");
    service.rename_player(&room.id, &joined.player.id, "Grace").expect("rename succeeds despite lagging subscriber");

    assert!(room_subscriber.try_recv().is_err());
}

#[test]
fn claim_slot_enforces_ownership_rules() {
    let mut service = service();
    let mut next_id: u64 = 1;
    let room = service.create_room(&mut next_id, NOW).expect("room creation succeeds");
    let first_slot = room.slots[0].id.clone();
    let second_slot = room.slots[1].id.clone();
    let first = service.join_room(&room.id, "Ada", &mut next_id, NOW).expect("first join succeeds");
    let second = service.join_room(&room.id, "Grace", &mut next_id, NOW).expect("second join succeeds");

    let room = service.claim_slot(&room.id, &first.player.id, &first_slot).expect("claim succeeds");
    assert_eq!(room.slots[0].player_id.as_ref(), Some(&first.player.id));

    assert!(matches!(
        service.claim_slot(&room.id, &second.player.id, &first_slot),
        Err(RoomServiceError::Repo(RepoError::Domain(DomainError::SlotAlreadyClaimed { .. })))
    ));
    assert!(matches!(
        service.claim_slot(&room.id, &first.player.id, &second_slot),
        Err(RoomServiceError::Repo(RepoError::Domain(DomainError::PlayerAlreadyClaimedSlot { .. })))
    ));
}

#[test]
fn update_prompt_enforces_slot_ownership() {
    let mut service = service();
    let mut next_id: u64 = 1;
    let room = service.create_room(&mut next_id, NOW).expect("room creation succeeds");
    let slot_id = room.slots[0].id.clone();
    let owner = service.join_room(&room.id, "Ada", &mut next_id, NOW).expect("owner join succeeds");
    let other = service.join_room(&room.id, "Grace", &mut next_id, NOW).expect("other join succeeds");

    service.claim_slot(&room.id, &owner.player.id, &slot_id).expect("claim succeeds");

    assert!(matches!(
        service.update_prompt(&room.id, &other.player.id, &slot_id, "Take center"),
        Err(RoomServiceError::Repo(RepoError::Domain(DomainError::SlotNotOwnedByPlayer { .. })))
    ));

    let room = service
        .update_prompt(&room.id, &owner.player.id, &slot_id, "Take center")
        .expect("owner prompt update succeeds");
    assert_eq!(room.slots[0].prompt_draft.as_deref(), Some("Take center"));
}

#[test]
fn release_slot_and_leave_room_clear_open_room_claims() {
    let mut service = service();
    let mut next_id: u64 = 1;
    let room = service.create_room(&mut next_id, NOW).expect("room creation succeeds");
    let slot_id = room.slots[0].id.clone();
    let joined = service.join_room(&room.id, "Ada", &mut next_id, NOW).expect("join succeeds");

    service.claim_slot(&room.id, &joined.player.id, &slot_id).expect("claim succeeds");
    let room = service.release_slot(&room.id, &joined.player.id, &slot_id).expect("release succeeds");
    assert!(room.slots[0].player_id.is_none());

    service.claim_slot(&room.id, &joined.player.id, &slot_id).expect("claim succeeds again");
    let room = service.leave_room(&room.id, &joined.player.id).expect("leave succeeds");
    assert!(room.players.is_empty());
    assert!(room.slots[0].player_id.is_none());
}

#[test]
fn rename_player_returns_updated_player() {
    let mut service = service();
    let mut next_id: u64 = 1;
    let room = service.create_room(&mut next_id, NOW).expect("room creation succeeds");
    let joined = service.join_room(&room.id, "Ada", &mut next_id, NOW).expect("join succeeds");

    let (room, player) = service.rename_player(&room.id, &joined.player.id, " Grace ").expect("rename succeeds");

    assert_eq!(player.display_name, "Grace");
    assert_eq!(room.players[0].display_name, "Grace");
    assert_eq!(room.players[0].token_hash, joined.player.token_hash);
}

#[test]
fn lock_room_fills_missing_prompts_and_unlock_room_reopens() {
    let mut service = service();
    let mut next_id: u64 = 1;
    let room = service.create_room(&mut next_id, NOW).expect("room creation succeeds");
    let slot_id = room.slots[0].id.clone();
    let slot_role = room.slots[0].role;
    let joined = service.join_room(&room.id, "Ada", &mut next_id, NOW).expect("join succeeds");

    service.claim_slot(&room.id, &joined.player.id, &slot_id).expect("claim succeeds");
    service.update_prompt(&room.id, &joined.player.id, &slot_id, "Custom prompt").expect("prompt update succeeds");

    let room = service.lock_room(&room.id).expect("lock succeeds");

    assert_eq!(room.status, RoomStatus::Locked);
    assert_eq!(room.slots[0].locked_prompt.as_deref(), Some("Custom prompt"));
    assert_eq!(room.slots[1].locked_prompt.as_deref(), Some(room.slots[1].role.default_prompt()));
    assert_eq!(room.slots[0].role, slot_role);
    assert!(room.slots.iter().all(|slot| slot.locked_prompt.is_some()));

    let room = service.unlock_room(&room.id).expect("unlock succeeds");
    assert_eq!(room.status, RoomStatus::Open);
}

#[test]
fn get_room_state_and_list_rooms_return_current_rooms() {
    let mut service = service();
    let mut next_id: u64 = 1;
    let room = service.create_room(&mut next_id, NOW).expect("room creation succeeds");

    let state = service.get_room_state(&room.id).expect("state lookup succeeds");
    let rooms = service.list_rooms().expect("list succeeds");

    assert_eq!(state.id, room.id);
    assert_eq!(rooms.len(), 1);
    assert_eq!(rooms[0].id, room.id);
}

#[test]
fn locked_room_rejects_player_edits_and_slot_changes() {
    let mut service = service();
    let mut next_id: u64 = 1;
    let room = service.create_room(&mut next_id, NOW).expect("room creation succeeds");
    let slot_id = room.slots[0].id.clone();
    let joined = service.join_room(&room.id, "Ada", &mut next_id, NOW).expect("join succeeds");

    service.claim_slot(&room.id, &joined.player.id, &slot_id).expect("claim succeeds");
    service.lock_room(&room.id).expect("lock succeeds");

    assert!(matches!(
        service.join_room(&room.id, "Grace", &mut next_id, NOW),
        Err(RoomServiceError::Repo(RepoError::Domain(DomainError::RoomStatusDoesNotAllowAction { .. })))
    ));
    assert!(matches!(
        service.rename_player(&room.id, &joined.player.id, "Grace"),
        Err(RoomServiceError::Repo(RepoError::Domain(DomainError::RoomStatusDoesNotAllowAction { .. })))
    ));
    assert!(matches!(
        service.claim_slot(&room.id, &joined.player.id, &room.slots[1].id),
        Err(RoomServiceError::Repo(RepoError::Domain(DomainError::RoomStatusDoesNotAllowAction { .. })))
    ));
    assert!(matches!(
        service.release_slot(&room.id, &joined.player.id, &slot_id),
        Err(RoomServiceError::Repo(RepoError::Domain(DomainError::RoomStatusDoesNotAllowAction { .. })))
    ));
    assert!(matches!(
        service.update_prompt(&room.id, &joined.player.id, &slot_id, "late edit"),
        Err(RoomServiceError::Repo(RepoError::Domain(DomainError::RoomStatusDoesNotAllowAction { .. })))
    ));
}

#[test]
fn lifecycle_rejects_invalid_lock_unlock_and_missing_players() {
    let mut service = service();
    let mut next_id: u64 = 1;
    let room = service.create_room(&mut next_id, NOW).expect("room creation succeeds");
    let slot_id = room.slots[0].id.clone();

    assert!(matches!(
        service.unlock_room(&room.id),
        Err(RoomServiceError::Repo(RepoError::Domain(DomainError::InvalidRoomStatusTransition { .. })))
    ));
    assert!(matches!(
        service.claim_slot(&room.id, &second_player(), &slot_id),
        Err(RoomServiceError::Repo(RepoError::PlayerNotFound { .. }))
    ));

    service.lock_room(&room.id).expect("lock succeeds");
    assert!(matches!(
        service.lock_room(&room.id),
        Err(RoomServiceError::Repo(RepoError::Domain(DomainError::InvalidRoomStatusTransition { .. })))
    ));
}

#[test]
fn leave_after_lock_preserves_locked_prompt_snapshot() {
    let mut service = service();
    let mut next_id: u64 = 1;
    let room = service.create_room(&mut next_id, NOW).expect("room creation succeeds");
    let slot_id = room.slots[0].id.clone();
    let joined = service.join_room(&room.id, "Ada", &mut next_id, NOW).expect("join succeeds");

    service.claim_slot(&room.id, &joined.player.id, &slot_id).expect("claim succeeds");
    service.update_prompt(&room.id, &joined.player.id, &slot_id, "Locked snapshot").expect("prompt update succeeds");
    service.lock_room(&room.id).expect("lock succeeds");

    let room = service.leave_room(&room.id, &joined.player.id).expect("leave after lock succeeds");

    assert!(room.players.is_empty());
    assert_eq!(room.slots[0].player_id.as_ref(), Some(&joined.player.id));
    assert_eq!(room.slots[0].locked_prompt.as_deref(), Some("Locked snapshot"));
}

// Further cases of the room service.

#[test]
fn identifiers_codes_and_tokens_come_from_the_sequence() {
    let mut service = service();
    let mut next_id: u64 = 1;
    let first = service.create_room(&mut next_id, NOW).unwrap();
    assert_eq!(first.id, RoomId::new("room_1"));
    assert_eq!(first.code, RoomCode::new("ROOM0001"));
    assert_eq!(first.created_at, NOW);

    let joined = service.join_room(&first.id, "Ada", &mut next_id, 42).unwrap();
    assert_eq!(joined.player.id, PlayerId::new("player_2"));
    assert_eq!(joined.token, "player-token-2-42");
    assert_eq!(joined.player.joined_at, 42);

    let second = service.create_room(&mut next_id, NOW).unwrap();
    assert_eq!(second.id, RoomId::new("room_3"));
    assert_eq!(second.code, RoomCode::new("ROOM0003"));
}

#[test]
fn stored_token_hash_is_the_hex_digest_of_the_token() {
    let mut service = service();
    let mut next_id: u64 = 1;
    let room = service.create_room(&mut next_id, NOW).unwrap();
    let joined = service.join_room(&room.id, "Ada", &mut next_id, NOW).unwrap();

    let mut hasher = DefaultHasher::new();
    joined.token.as_str().hash(&mut hasher);
    assert_eq!(joined.player.token_hash, format!("{:016x}", hasher.finish()));
    assert_eq!(joined.player.token_hash.len(), 16);
    assert!(joined.player.token_hash.chars().all(|c| c.is_ascii_hexdigit() && !c.is_ascii_uppercase()));
}

#[test]
fn missing_rooms_are_reported_by_the_service() {
    let mut service = service();
    let mut next_id: u64 = 1;
    let mut admin_subscriber = service.subscribe(EventTopic::Admin);
    let missing = RoomId::new("room_404");
    assert_eq!(
        service.get_room_state(&missing),
        Err(RoomServiceError::RoomNotFound { room_id: missing.clone() })
    );
    assert!(matches!(
        service.join_room(&missing, "Ada", &mut next_id, NOW),
        Err(RoomServiceError::RoomNotFound { .. })
    ));
    assert_eq!(
        service.lock_room(&missing),
        Err(RoomServiceError::Repo(RepoError::RoomNotFound { room_id: missing.clone() }))
    );
    assert!(admin_subscriber.try_recv().is_err());
}

#[test]
fn failed_actions_publish_nothing() {
    let mut service = service();
    let mut next_id: u64 = 1;
    let room = service.create_room(&mut next_id, NOW).unwrap();
    let mut admin_subscriber = service.subscribe(EventTopic::Admin);
    let mut room_subscriber = service.subscribe(EventTopic::Room(room.id.clone()));
    assert!(service.join_room(&room.id, "   ", &mut next_id, NOW).is_err());
    assert!(service.claim_slot(&room.id, &second_player(), &room.slots[0].id).is_err());
    assert!(admin_subscriber.try_recv().is_err());
    assert!(room_subscriber.try_recv().is_err());
    let joined = service.join_room(&room.id, "Ada", &mut next_id, NOW).unwrap();
    assert_eq!(joined.player.id, PlayerId::new("player_3"));
    let on_room = room_subscriber.try_recv().unwrap();
    let on_admin = admin_subscriber.try_recv().unwrap();
    assert_eq!(on_room.topic, EventTopic::Room(room.id.clone()));
    assert_eq!(on_admin.topic, EventTopic::Admin);
    assert_eq!(on_room.event, on_admin.event);
    assert!(room_subscriber.try_recv().is_err());
}

#[test]
fn room_summary_in_the_creation_event_counts_players() {
    let mut service = service();
    let mut next_id: u64 = 1;
    let mut admin_subscriber = service.subscribe(EventTopic::Admin);
    let room = service.create_room(&mut next_id, NOW).unwrap();
    assert_eq!(
        admin_subscriber.try_recv().unwrap().event,
        LiveEvent::Room(RoomEvent::RoomCreated {
            room: RoomSummary {
                id: room.id.clone(),
                code: room.code.clone(),
                status: RoomStatus::Open,
                version: 1,
                player_count: 0
            }
        })
    );
    let joined = service.join_room(&room.id, "Ada", &mut next_id, NOW).unwrap();
    assert_eq!(
        PublicPlayer::from(&joined.player),
        PublicPlayer { id: joined.player.id.clone(), display_name: "Ada".to_owned() }
    );
}

#[test]
fn rooms_do_not_get_each_others_events() {
    let mut service = service();
    let mut next_id: u64 = 1;
    let first = service.create_room(&mut next_id, NOW).unwrap();
    let second = service.create_room(&mut next_id, NOW).unwrap();
    let mut first_subscriber = service.subscribe(EventTopic::Room(first.id.clone()));
    service.lock_room(&second.id).unwrap();
    assert!(first_subscriber.try_recv().is_err());
    service.lock_room(&first.id).unwrap();
    assert_eq!(
        first_subscriber.try_recv().unwrap().event,
        LiveEvent::Room(RoomEvent::RoomLocked { room_id: first.id.clone() })
    );
}
#[test]
fn a_taken_sequence_identifier_is_refused() {
    let mut store = MemoryPersistence::new();
    store
        .create_room(CreateRoomInput { room_id: RoomId::new("room_1"), code: RoomCode::new("X"), timestamp: 1 })
        .unwrap();
    let mut service = RoomService::new(store);
    let mut next_id: u64 = 1;
    assert_eq!(
        service.create_room(&mut next_id, NOW),
        Err(RoomServiceError::Repo(RepoError::RoomAlreadyExists { room_id: RoomId::new("room_1") }))
    );
    let room = service.create_room(&mut next_id, NOW).unwrap();
    assert_eq!(room.id, RoomId::new("room_2"));
    assert_eq!(service.list_rooms().unwrap().len(), 2);
}

#[test]
fn services_sharing_one_counter_never_reuse_an_identifier() {
    let mut next_id: u64 = 1;
    let mut first = service();
    let mut second = service();
    let a = first.create_room(&mut next_id, NOW).unwrap();
    let b = second.create_room(&mut next_id, NOW).unwrap();
    let joined = second.join_room(&b.id, "Ada", &mut next_id, NOW).unwrap();
    assert_eq!(a.id, RoomId::new("room_1"));
    assert_eq!(b.id, RoomId::new("room_2"));
    assert_eq!(joined.player.id, PlayerId::new("player_3"));
    assert_eq!(next_id, 4);
}

#[test]
fn the_counter_wraps_around() {
    let mut next_id: u64 = u64::MAX;
    let mut service = service();
    let room = service.create_room(&mut next_id, NOW).unwrap();
    assert_eq!(room.id.as_str(), format!("room_{}", u64::MAX));
    assert_eq!(next_id, 0);
}
