use std::collections::HashMap;

use promptops_arena_backend::domain::action::AgentDecision;
use promptops_arena_backend::domain::agent::AgentStatus;
use promptops_arena_backend::domain::error::DomainError;
use promptops_arena_backend::domain::event::{
    AgentDecisionLog, AgentObservation, GameEvent, GameEventType, GameStateSnapshot, PublicAgentState,
    PublicGameState, PublicMapSummary, PublicNodeState,
};
use promptops_arena_backend::domain::game_match::{MatchConfigSnapshot, MatchEndReason, MatchResult, MatchStatus};
use promptops_arena_backend::domain::ids::{AgentId, EventId, MapId, MatchId, PlayerId, RoomCode, RoomId, TeamId};
use promptops_arena_backend::domain::map::Position;
use promptops_arena_backend::domain::player::Player;
use promptops_arena_backend::domain::room::{Room, RoomStatus};
use promptops_arena_backend::domain::slot::RoleName;
use promptops_arena_backend::persistence::memory::MemoryPersistence;
use promptops_arena_backend::persistence::traits::{
    AddPlayerInput, AdminAuditLog, ClaimSlotInput, CreateMatchInput, CreateRoomInput, LockRoomInput, MatchError,
    RemovePlayerInput, RenamePlayerInput, RepoError, UpdateSlotPromptInput,
};

fn room_id() -> RoomId {
    RoomId::new("room_1")
}

fn room_code() -> RoomCode {
    RoomCode::new("ABC123")
}

fn match_id() -> MatchId {
    MatchId::new("match_1")
}

fn create_room(store: &mut MemoryPersistence) -> Room {
    store
        .create_room(CreateRoomInput { room_id: room_id(), code: room_code(), timestamp: 100 })
        .expect("room creation succeeds")
}

fn add_player(store: &mut MemoryPersistence, player_id: PlayerId, display_name: &str) -> Player {
    store
        .add_player(AddPlayerInput {
            room_id: room_id(),
            player_id,
            display_name: display_name.to_owned(),
            token_hash: "token_hash".to_owned(),
            timestamp: 101,
        })
        .expect("player add succeeds")
        .1
}

#[test]
fn creates_and_reads_rooms_by_id_code_and_list() {
    let mut store = MemoryPersistence::new();
    let created = create_room(&mut store);

    assert_eq!(store.get_room(&created.id).expect("read succeeds"), Some(created.clone()));
    assert_eq!(store.get_room_by_code(&created.code).expect("read by code succeeds"), Some(created.clone()));
    assert_eq!(store.list_rooms().expect("list succeeds"), vec![created]);
}

#[test]
fn adds_and_removes_players() {
    let mut store = MemoryPersistence::new();
    create_room(&mut store);
    let player = add_player(&mut store, PlayerId::new("player_1"), " Ada ");

    assert_eq!(player.display_name, "Ada");

    let room = store
        .remove_player(RemovePlayerInput { room_id: room_id(), player_id: player.id })
        .expect("remove succeeds");

    assert!(room.players.is_empty());
}

#[test]
fn claims_slots_atomically_and_rejects_occupied_or_double_claims() {
    let mut store = MemoryPersistence::new();
    let room = create_room(&mut store);
    let first_slot = room.slots[0].id.clone();
    let second_slot = room.slots[1].id.clone();
    let first_player = add_player(&mut store, PlayerId::new("player_1"), "Ada");
    let second_player = add_player(&mut store, PlayerId::new("player_2"), "Grace");

    let room = store
        .claim_slot(ClaimSlotInput {
            room_id: room_id(),
            player_id: first_player.id.clone(),
            slot_id: first_slot.clone(),
        })
        .expect("claim succeeds");
    assert_eq!(room.slots[0].player_id.as_ref(), Some(&first_player.id));

    assert!(matches!(
        store.claim_slot(ClaimSlotInput {
            room_id: room_id(),
            player_id: second_player.id.clone(),
            slot_id: first_slot,
        }),
        Err(RepoError::Domain(DomainError::SlotAlreadyClaimed { .. }))
    ));

    assert!(matches!(
        store.claim_slot(ClaimSlotInput { room_id: room_id(), player_id: first_player.id, slot_id: second_slot }),
        Err(RepoError::Domain(DomainError::PlayerAlreadyClaimedSlot { .. }))
    ));
}

#[test]
fn updates_prompt_locks_room_and_attaches_match() {
    let mut store = MemoryPersistence::new();
    let room = create_room(&mut store);
    let slot_id = room.slots[0].id.clone();
    let player = add_player(&mut store, PlayerId::new("player_1"), "Ada");

    store
        .claim_slot(ClaimSlotInput { room_id: room_id(), player_id: player.id.clone(), slot_id: slot_id.clone() })
        .expect("claim succeeds");

    let room = store
        .update_slot_prompt(UpdateSlotPromptInput {
            room_id: room_id(),
            player_id: player.id,
            slot_id,
            prompt: "Hold the center".to_owned(),
        })
        .expect("prompt update succeeds");
    assert_eq!(room.slots[0].prompt_draft.as_deref(), Some("Hold the center"));

    let room = store.lock_room(LockRoomInput { room_id: room_id() }).expect("lock succeeds");
    assert_eq!(room.status, RoomStatus::Locked);
    assert!(room.slots.iter().all(|slot| slot.locked_prompt.is_some()));

    let room = store.attach_match(&room_id(), &match_id()).expect("attach succeeds");
    assert_eq!(room.status, RoomStatus::Running);
    assert_eq!(room.match_id, Some(match_id()));
}

fn turn_payload(turn: u32) -> serde_json::Value {
    let mut fields = serde_json::Map::new();
    fields.insert("turn".to_owned(), serde_json::Value::from(turn));
    serde_json::Value::Object(fields)
}

fn game_event(sequence: u64, turn: u32) -> GameEvent {
    GameEvent {
        id: EventId::new(&format!("event_{sequence}")),
        match_id: match_id(),
        turn,
        sequence,
        event_type: GameEventType::TurnStarted,
        actor_agent_id: None,
        payload: turn_payload(turn),
        created_at: 300 + sequence,
    }
}

fn game_state_snapshot(turn: u32) -> GameStateSnapshot {
    GameStateSnapshot {
        match_id: match_id(),
        turn,
        state: PublicGameState {
            match_id: match_id(),
            turn,
            map_id: MapId::new("default-15x9"),
            agents: Vec::new(),
            nodes: Vec::new(),
            score: HashMap::new(),
        },
        created_at: 400,
    }
}

fn public_agent(agent_id: &str) -> PublicAgentState {
    PublicAgentState {
        id: AgentId::new(agent_id),
        team_id: TeamId::new("team_a"),
        role: RoleName::Vanguard,
        display_name: Some("Ada".to_owned()),
        hp: 14,
        max_hp: 14,
        position: Position::new(0, 0),
        status: AgentStatus::Active,
        marked: false,
        shield: 0,
    }
}

fn decision_log(agent_id: &str) -> AgentDecisionLog {
    AgentDecisionLog {
        match_id: match_id(),
        turn: 1,
        agent_id: AgentId::new(agent_id),
        observation: AgentObservation {
            turn: 1,
            self_agent: public_agent(agent_id),
            visible_allies: Vec::new(),
            visible_enemies: Vec::new(),
            known_nodes: Vec::<PublicNodeState>::new(),
            score: HashMap::new(),
            map_summary: PublicMapSummary { map_id: MapId::new("default-15x9"), width: 15, height: 9 },
            legal_action_hints: Vec::new(),
        },
        prompt_snapshot: Some("act carefully".to_owned()),
        raw_output: Some("wait".to_owned()),
        parsed_decision: Some(AgentDecision::fallback()),
        validated_decision: AgentDecision::fallback(),
        was_fallback_used: false,
        error: None,
        latency_ms: Some(12),
    }
}

#[test]
fn saves_and_lists_events_snapshots_and_decisions() {
    let mut store = MemoryPersistence::new();
    let first_event = game_event(1, 1);
    let second_event = game_event(2, 2);
    store.append_events(vec![first_event.clone(), second_event.clone()]).expect("events save succeeds");

    assert_eq!(
        store.list_events_by_match(&match_id()).expect("events list succeeds"),
        vec![first_event.clone(), second_event]
    );
    assert_eq!(store.list_events_by_turn(&match_id(), 1).expect("events list by turn succeeds"), vec![first_event]);

    let snapshot = game_state_snapshot(3);
    store.save_snapshot(snapshot.clone()).expect("snapshot save succeeds");
    assert_eq!(store.get_snapshot(&match_id(), 3).expect("snapshot get succeeds"), Some(snapshot.clone()));
    assert_eq!(store.list_snapshots(&match_id()).expect("snapshot list succeeds"), vec![snapshot]);

    let first_decision = decision_log("agent_1");
    let second_decision = decision_log("agent_2");
    store.save_decision(first_decision.clone()).expect("decision save succeeds");
    store.save_decision(second_decision.clone()).expect("decision save succeeds");
    assert_eq!(
        store.list_decisions_by_match(&match_id()).expect("decision list succeeds"),
        vec![first_decision.clone(), second_decision]
    );
    assert_eq!(
        store.list_decisions_by_agent(&match_id(), &AgentId::new("agent_1")).expect("decision list by agent succeeds"),
        vec![first_decision]
    );
}

#[test]
fn updates_match_lifecycle() {
    let mut store = MemoryPersistence::new();
    let game_match = store
        .create_match(CreateMatchInput {
            match_id: match_id(),
            room_id: room_id(),
            config_snapshot: MatchConfigSnapshot { map_id: MapId::new("default-15x9"), max_turns: 8, teams: Vec::new() },
            timestamp: 200,
        })
        .expect("match create succeeds");
    assert_eq!(game_match.status, MatchStatus::Created);

    let game_match = store.set_running(&match_id()).expect("running update succeeds");
    assert_eq!(game_match.status, MatchStatus::Running);
    assert_eq!(
        store.get_match_by_room_id(&room_id()).expect("match by room read succeeds"),
        Some(game_match.clone())
    );

    let game_match = store.update_current_turn(&match_id(), 4).expect("turn update succeeds");
    assert_eq!(game_match.current_turn, 4);

    let result = MatchResult { winner: None, score: HashMap::new(), reason: MatchEndReason::MaxTurnsReached };
    let game_match = store.set_finished(&match_id(), result.clone()).expect("finish succeeds");
    assert_eq!(game_match.status, MatchStatus::Finished);
    assert_eq!(game_match.result, Some(result));
}

// Further cases of the store.

#[test]
fn rooms_are_listed_by_identifier_and_identifiers_and_codes_are_unique() {
    let mut store = MemoryPersistence::new();
    for (id, code) in [("room_b", "B"), ("room_a", "A"), ("room_c", "C")] {
        store
            .create_room(CreateRoomInput { room_id: RoomId::new(id), code: RoomCode::new(code), timestamp: 1 })
            .expect("create succeeds");
    }
    let ids: Vec<String> = store.list_rooms().unwrap().into_iter().map(|r| r.id.into_inner()).collect();
    assert_eq!(ids, vec!["room_a", "room_b", "room_c"]);

    assert_eq!(
        store.create_room(CreateRoomInput { room_id: RoomId::new("room_a"), code: RoomCode::new("Z"), timestamp: 2 }),
        Err(RepoError::RoomAlreadyExists { room_id: RoomId::new("room_a") })
    );
    assert_eq!(
        store.create_room(CreateRoomInput { room_id: RoomId::new("room_z"), code: RoomCode::new("C"), timestamp: 2 }),
        Err(RepoError::RoomCodeAlreadyExists { code: RoomCode::new("C") })
    );
    assert_eq!(store.list_rooms().unwrap().len(), 3);
    assert_eq!(store.get_room(&RoomId::new("room_z")), Ok(None));
}

#[test]
fn player_errors_name_the_room_and_player() {
    let mut store = MemoryPersistence::new();
    create_room(&mut store);
    add_player(&mut store, PlayerId::new("player_1"), "Ada");

    assert_eq!(
        store.add_player(AddPlayerInput {
            room_id: room_id(),
            player_id: PlayerId::new("player_1"),
            display_name: "Ada".to_owned(),
            token_hash: "h".to_owned(),
            timestamp: 5,
        }),
        Err(RepoError::PlayerAlreadyExists { room_id: room_id(), player_id: PlayerId::new("player_1") })
    );
    assert_eq!(
        store.add_player(AddPlayerInput {
            room_id: RoomId::new("room_9"),
            player_id: PlayerId::new("player_2"),
            display_name: "Ada".to_owned(),
            token_hash: "h".to_owned(),
            timestamp: 5,
        }),
        Err(RepoError::RoomNotFound { room_id: RoomId::new("room_9") })
    );
    assert!(matches!(
        store.add_player(AddPlayerInput {
            room_id: room_id(),
            player_id: PlayerId::new("player_2"),
            display_name: "  ".to_owned(),
            token_hash: "h".to_owned(),
            timestamp: 5,
        }),
        Err(RepoError::Domain(DomainError::InvalidDisplayName(_)))
    ));
    assert_eq!(
        store.remove_player(RemovePlayerInput { room_id: room_id(), player_id: PlayerId::new("player_2") }),
        Err(RepoError::PlayerNotFound { room_id: room_id(), player_id: PlayerId::new("player_2") })
    );
    let (room, player) = store
        .rename_player(RenamePlayerInput {
            room_id: room_id(),
            player_id: PlayerId::new("player_1"),
            display_name: " Grace ".to_owned(),
        })
        .expect("rename succeeds");
    assert_eq!(player.display_name, "Grace");
    assert_eq!(player.token_hash, "token_hash");
    assert_eq!(room.players[0], player);
    assert_eq!(room.version, 3);
}

#[test]
fn leaving_an_open_room_frees_the_slot_and_a_locked_room_keeps_it() {
    let mut store = MemoryPersistence::new();
    let room = create_room(&mut store);
    let slot_id = room.slots[2].id.clone();
    let ada = add_player(&mut store, PlayerId::new("player_1"), "Ada");
    store
        .claim_slot(ClaimSlotInput { room_id: room_id(), player_id: ada.id.clone(), slot_id: slot_id.clone() })
        .unwrap();
    let room = store.remove_player(RemovePlayerInput { room_id: room_id(), player_id: ada.id.clone() }).unwrap();
    assert!(room.slots[2].player_id.is_none());

    let ada = add_player(&mut store, PlayerId::new("player_1"), "Ada");
    store
        .claim_slot(ClaimSlotInput { room_id: room_id(), player_id: ada.id.clone(), slot_id: slot_id.clone() })
        .unwrap();
    store.lock_room(LockRoomInput { room_id: room_id() }).unwrap();
    let room = store.remove_player(RemovePlayerInput { room_id: room_id(), player_id: ada.id.clone() }).unwrap();
    assert_eq!(room.slots[2].player_id, Some(ada.id));
    assert_eq!(room.slots[2].locked_prompt.as_deref(), Some(RoleName::Medic.default_prompt()));
}

#[test]
fn unlock_and_set_status_follow_the_lifecycle() {
    let mut store = MemoryPersistence::new();
    create_room(&mut store);
    assert_eq!(
        store.unlock_room(&room_id()),
        Err(RepoError::Domain(DomainError::InvalidRoomStatusTransition {
            from: RoomStatus::Open,
            to: RoomStatus::Open
        }))
    );
    store.lock_room(LockRoomInput { room_id: room_id() }).unwrap();
    let room = store.unlock_room(&room_id()).unwrap();
    assert_eq!(room.status, RoomStatus::Open);
    let room = store.set_status(&room_id(), RoomStatus::Closed).unwrap();
    assert_eq!(room.status, RoomStatus::Closed);
    assert_eq!(
        store.lock_room(LockRoomInput { room_id: RoomId::new("missing") }),
        Err(RepoError::RoomNotFound { room_id: RoomId::new("missing") })
    );
}

#[test]
fn snapshots_are_kept_in_turn_order_and_replaced_by_turn() {
    let mut store = MemoryPersistence::new();
    store.save_snapshot(game_state_snapshot(5)).unwrap();
    store.save_snapshot(game_state_snapshot(2)).unwrap();
    store.save_snapshot(game_state_snapshot(9)).unwrap();
    let mut newer = game_state_snapshot(5);
    newer.created_at = 999;
    store.save_snapshot(newer.clone()).unwrap();

    let turns: Vec<u32> = store.list_snapshots(&match_id()).unwrap().iter().map(|s| s.turn).collect();
    assert_eq!(turns, vec![2, 5, 9]);
    assert_eq!(store.get_snapshot(&match_id(), 5), Ok(Some(newer)));
    assert_eq!(store.get_snapshot(&match_id(), 4), Ok(None));
    assert_eq!(store.list_snapshots(&MatchId::new("other")), Ok(Vec::new()));
}

#[test]
fn match_errors_and_failures() {
    let mut store = MemoryPersistence::new();
    assert_eq!(store.set_running(&match_id()), Err(RepoError::MatchNotFound { match_id: match_id() }));
    let input = || CreateMatchInput {
        match_id: match_id(),
        room_id: room_id(),
        config_snapshot: MatchConfigSnapshot { map_id: MapId::new("m"), max_turns: 8, teams: Vec::new() },
        timestamp: 10,
    };
    store.create_match(input()).unwrap();
    assert_eq!(store.create_match(input()), Err(RepoError::MatchAlreadyExists { match_id: match_id() }));
    let failed = store.set_failed(&match_id(), MatchError::new("engine stopped")).unwrap();
    assert_eq!(failed.status, MatchStatus::Failed);
    assert_eq!(failed.result.map(|r| r.reason), Some(MatchEndReason::Failed));
    assert_eq!(store.get_match(&match_id()).unwrap().map(|m| m.status), Some(MatchStatus::Failed));
    assert_eq!(store.get_match_by_room_id(&RoomId::new("other")), Ok(None));
}

#[test]
fn events_are_listed_in_order_by_match_and_turn() {
    let mut store = MemoryPersistence::new();
    store.append_event(game_event(1, 1)).unwrap();
    let mut other = game_event(2, 1);
    other.match_id = MatchId::new("match_2");
    store.append_event(other.clone()).unwrap();
    store.append_event(game_event(3, 1)).unwrap();
    store.append_event(game_event(4, 2)).unwrap();

    let sequences: Vec<u64> = store.list_events_by_match(&match_id()).unwrap().iter().map(|e| e.sequence).collect();
    assert_eq!(sequences, vec![1, 3, 4]);
    let sequences: Vec<u64> = store.list_events_by_turn(&match_id(), 1).unwrap().iter().map(|e| e.sequence).collect();
    assert_eq!(sequences, vec![1, 3]);
    assert_eq!(store.list_events_by_match(&MatchId::new("match_2")), Ok(vec![other]));
}

#[test]
fn audit_logs_keep_their_order() {
    let mut store = MemoryPersistence::new();
    let first = AdminAuditLog { id: "audit_1".to_owned(), action: "lock room".to_owned(), created_at: 1 };
    let second = AdminAuditLog { id: "audit_2".to_owned(), action: "close room".to_owned(), created_at: 2 };
    store.append_audit_log(first.clone()).unwrap();
    store.append_audit_log(second.clone()).unwrap();
    assert_eq!(store.list_audit_logs(), Ok(vec![first, second]));
}
