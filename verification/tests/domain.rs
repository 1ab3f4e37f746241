use promptops_arena_backend::domain::agent::{AgentStatus, GameAgent, RoleStats};
use promptops_arena_backend::domain::error::{DisplayNameValidationError, DomainError, MapValidationError};
use promptops_arena_backend::domain::ids::{AgentId, MapId, MatchId, PlayerId, RoomCode, RoomId, SlotId, TeamId};
use promptops_arena_backend::domain::map::{GameMap, Position};
use promptops_arena_backend::domain::player::{validate_display_name, Player};
use promptops_arena_backend::domain::room::{Room, RoomConfig, RoomStatus};
use promptops_arena_backend::domain::slot::RoleName;
use promptops_arena_backend::domain::team::TeamSide;

fn test_room() -> Room {
    Room::new_default(RoomId::new("room_1"), RoomCode::new("ABC123"), 100)
}

#[test]
fn test_role_stats_mapping() {
    let stats = RoleName::Vanguard.stats();
    assert_eq!(stats.hp, 14);
    assert_eq!(stats.movement, 2);
    assert_eq!(stats.attack_range, 1);
    assert_eq!(stats.attack_damage, 2);

    let stats_scout = RoleName::Scout.stats();
    assert_eq!(stats_scout.hp, 8);
    assert_eq!(stats_scout.movement, 4);
}

#[test]
fn test_game_agent_new() {
    let agent = GameAgent::new(
        AgentId::new("agent-1"),
        TeamId::new("team-A"),
        RoleName::Medic,
        Some("Doc".to_string()),
        Position::new(1, 2),
    );

    assert_eq!(agent.id, AgentId::new("agent-1"));
    assert_eq!(agent.team_id, TeamId::new("team-A"));
    assert_eq!(agent.role, RoleName::Medic);
    assert_eq!(agent.display_name, Some("Doc".to_string()));
    assert_eq!(agent.hp, 8);
    assert_eq!(agent.max_hp, 8);
    assert_eq!(agent.position, Position::new(1, 2));
    assert_eq!(agent.status, AgentStatus::Active);
    assert!(!agent.marked);
    assert_eq!(agent.shield, 0);
    assert!(agent.cooldowns.is_empty());
}

#[test]
fn display_name_is_trimmed_and_allows_unicode() {
    let player = Player::new(PlayerId::new("player_1"), "  測試 Player  ", "token_hash", 100)
        .expect("valid display name");

    assert_eq!(player.display_name, "測試 Player");
}

#[test]
fn display_name_rejects_empty_too_long_and_control_chars() {
    assert!(matches!(
        validate_display_name("   "),
        Err(DomainError::InvalidDisplayName(DisplayNameValidationError::Empty))
    ));

    assert!(matches!(
        validate_display_name("abcdefghijklmnopqrstu"),
        Err(DomainError::InvalidDisplayName(DisplayNameValidationError::TooLong { length: 21, max: 20 }))
    ));

    assert!(matches!(
        validate_display_name("bad\nname"),
        Err(DomainError::InvalidDisplayName(DisplayNameValidationError::ContainsControlCharacter))
    ));
}

#[test]
fn default_room_has_two_teams_and_one_slot_per_role_per_team() {
    let room = test_room();

    assert_eq!(room.status, RoomStatus::Open);
    assert_eq!(room.config, RoomConfig::default());
    assert_eq!(room.teams.len(), 2);
    assert_eq!(room.slots.len(), RoleName::ALL.len() * 2);

    for team in &room.teams {
        for role in RoleName::ALL {
            assert_eq!(
                room.slots.iter().filter(|slot| slot.team_id == team.id && slot.role == role).count(),
                1
            );
        }
    }
}

#[test]
fn player_can_claim_one_slot_but_not_two() {
    let mut room = test_room();
    let player_id = PlayerId::new("player_1");
    let first_slot = room.slots[0].id.clone();
    let second_slot = room.slots[1].id.clone();

    room.claim_slot(&player_id, &first_slot).expect("first claim succeeds");

    assert!(matches!(
        room.claim_slot(&player_id, &second_slot),
        Err(DomainError::PlayerAlreadyClaimedSlot { .. })
    ));
}

#[test]
fn prompt_updates_require_slot_ownership() {
    let mut room = test_room();
    let owner = PlayerId::new("player_1");
    let other = PlayerId::new("player_2");
    let slot_id = room.slots[0].id.clone();

    room.claim_slot(&owner, &slot_id).expect("claim should succeed");
    room.update_prompt(&owner, &slot_id, "hold north").expect("owner can update prompt");

    assert_eq!(room.slots[0].prompt_draft.as_deref(), Some("hold north"));
    assert!(matches!(
        room.update_prompt(&other, &slot_id, "steal prompt"),
        Err(DomainError::SlotNotOwnedByPlayer { .. })
    ));
}

#[test]
fn room_status_helpers_guard_invalid_transitions() {
    let mut room = test_room();

    assert!(matches!(
        room.mark_running(MatchId::new("match_1")),
        Err(DomainError::InvalidRoomStatusTransition { from: RoomStatus::Open, to: RoomStatus::Running })
    ));

    room.lock("default prompt").expect("open room can lock");
    assert_eq!(room.status, RoomStatus::Locked);
    assert!(room.slots.iter().all(|slot| slot.locked_prompt.is_some()));

    room.mark_running(MatchId::new("match_1")).expect("locked room can run");
    assert_eq!(room.status, RoomStatus::Running);
    assert!(matches!(
        room.update_prompt(&PlayerId::new("player_1"), &room.slots[0].id.clone(), "late"),
        Err(DomainError::RoomStatusDoesNotAllowAction { .. })
    ));
}

#[test]
fn default_map_has_required_shape_nodes_and_spawns() {
    let map = GameMap::default_15x9().expect("default map should validate");

    assert_eq!(map.width, 15);
    assert_eq!(map.height, 9);
    assert_eq!(map.nodes.len(), 3);
    assert!(map.has_spawn(TeamSide::A));
    assert!(map.has_spawn(TeamSide::B));
}

#[test]
fn map_parser_rejects_invalid_domain_maps() {
    assert!(matches!(
        GameMap::parse(MapId::new("bad"), &["...", ".."], &[]),
        Err(DomainError::InvalidMap(MapValidationError::WrongHeight { actual: 2, expected: 9 }))
    ));

    let rows_without_nodes = [".AAAAAAAAAAAAAB"; 9];
    assert!(matches!(
        GameMap::parse(MapId::new("bad"), &rows_without_nodes, &[]),
        Err(DomainError::InvalidMap(MapValidationError::WrongControlNodeCount { actual: 0, expected: 3 }))
    ));
}

#[test]
fn role_stats_match_mvp_constants() {
    assert_eq!(
        RoleName::Vanguard.stats(),
        RoleStats { hp: 14, movement: 2, attack_range: 1, attack_damage: 2 }
    );
    assert_eq!(RoleName::Scout.stats().movement, 4);
    assert_eq!(RoleName::Engineer.stats().attack_range, 3);
}

#[test]
fn test_validate_display_name_valid() {
    assert_eq!(validate_display_name("  John Doe  ").unwrap(), "John Doe");
    assert_eq!(validate_display_name("🚀 Agent 007 🚀").unwrap(), "🚀 Agent 007 🚀");
    assert_eq!(validate_display_name("A").unwrap(), "A");
    assert_eq!(validate_display_name("12345678901234567890").unwrap(), "12345678901234567890");
}

#[test]
fn test_validate_display_name_invalid_length() {
    assert!(validate_display_name("").is_err());
    assert!(validate_display_name("   ").is_err());
    assert!(validate_display_name("123456789012345678901").is_err());
}

#[test]
fn test_validate_display_name_control_chars() {
    assert!(validate_display_name("John\nDoe").is_err());
    assert!(validate_display_name("John\tDoe").is_err());
    assert!(validate_display_name("John\u{0000}Doe").is_err());
}

// Further cases of the room rules and the display-name rules.

#[test]
fn validated_display_name_validates_to_itself() {
    let once = validate_display_name(" \u{3000}Ada Lovelace\t").unwrap();
    assert_eq!(once, "Ada Lovelace");
    assert_eq!(validate_display_name(&once).unwrap(), once);
}

#[test]
fn display_name_of_twenty_characters_after_trimming_is_kept() {
    assert_eq!(validate_display_name("  12345678901234567890  ").unwrap(), "12345678901234567890");
    assert!(matches!(
        validate_display_name("\u{0085}abc"),
        Ok(ref name) if name == "abc"
    ));
    assert!(matches!(
        validate_display_name("ab\u{009f}c"),
        Err(DomainError::InvalidDisplayName(DisplayNameValidationError::ContainsControlCharacter))
    ));
}

#[test]
fn release_after_claim_gives_the_slot_back() {
    let mut room = test_room();
    let before = room.clone();
    let player_id = PlayerId::new("player_1");
    let slot_id = room.slots[3].id.clone();

    room.claim_slot(&player_id, &slot_id).expect("claim succeeds");
    assert_eq!(room.slots[3].player_id.as_ref(), Some(&player_id));
    room.release_slot(&player_id, &slot_id).expect("release succeeds");

    assert_eq!(room.slots, before.slots);
    assert_eq!(room.version, before.version + 2);
}

#[test]
fn claim_errors_name_the_slot_and_leave_the_room_unchanged() {
    let mut room = test_room();
    let ada = PlayerId::new("player_1");
    let grace = PlayerId::new("player_2");
    let slot_id = room.slots[0].id.clone();
    room.claim_slot(&ada, &slot_id).expect("claim succeeds");
    let before = room.clone();

    assert_eq!(
        room.claim_slot(&grace, &slot_id),
        Err(DomainError::SlotAlreadyClaimed { slot_id: slot_id.clone() })
    );
    assert_eq!(
        room.claim_slot(&grace, &SlotId::new("slot_c_vanguard")),
        Err(DomainError::SlotNotFound { slot_id: SlotId::new("slot_c_vanguard") })
    );
    assert_eq!(
        room.claim_slot(&ada, &room.slots[1].id.clone()),
        Err(DomainError::PlayerAlreadyClaimedSlot { player_id: ada.clone(), slot_id: slot_id.clone() })
    );
    assert_eq!(
        room.release_slot(&grace, &slot_id),
        Err(DomainError::SlotNotOwnedByPlayer { slot_id: slot_id.clone(), player_id: grace.clone() })
    );
    assert_eq!(room, before);
}

#[test]
fn lock_takes_drafts_or_role_defaults_and_unlock_keeps_them() {
    let mut room = test_room();
    let ada = PlayerId::new("player_1");
    let slot_id = room.slots[0].id.clone();
    room.claim_slot(&ada, &slot_id).expect("claim succeeds");
    room.update_prompt(&ada, &slot_id, "Hold the relay").expect("update succeeds");

    room.lock_with_role_defaults().expect("lock succeeds");
    assert_eq!(room.status, RoomStatus::Locked);
    assert_eq!(room.slots[0].locked_prompt.as_deref(), Some("Hold the relay"));
    for slot in &room.slots[1..] {
        assert_eq!(slot.locked_prompt.as_deref(), Some(slot.role.default_prompt()));
    }

    assert_eq!(
        room.lock_with_role_defaults(),
        Err(DomainError::InvalidRoomStatusTransition { from: RoomStatus::Locked, to: RoomStatus::Locked })
    );
    let locked_slots = room.slots.clone();
    room.unlock().expect("unlock succeeds");
    assert_eq!(room.status, RoomStatus::Open);
    assert_eq!(room.slots, locked_slots);
}

#[test]
fn room_lifecycle_runs_and_finishes_then_closes() {
    let mut room = test_room();
    assert_eq!(
        room.mark_finished(),
        Err(DomainError::InvalidRoomStatusTransition { from: RoomStatus::Open, to: RoomStatus::Finished })
    );
    room.lock("hold").expect("lock succeeds");
    room.mark_running(MatchId::new("match_9")).expect("run succeeds");
    assert_eq!(room.match_id, Some(MatchId::new("match_9")));
    assert_eq!(
        room.unlock(),
        Err(DomainError::InvalidRoomStatusTransition { from: RoomStatus::Running, to: RoomStatus::Open })
    );
    room.mark_finished().expect("finish succeeds");
    assert_eq!(room.status, RoomStatus::Finished);
    let version = room.version;
    room.close();
    assert_eq!(room.status, RoomStatus::Closed);
    assert_eq!(room.version, version + 1);
}

#[test]
fn default_room_slot_identifiers_follow_side_and_role() {
    let room = test_room();
    assert_eq!(room.slots[0].id, SlotId::new("slot_a_vanguard"));
    assert_eq!(room.slots[5].id, SlotId::new("slot_a_engineer"));
    assert_eq!(room.slots[6].id, SlotId::new("slot_b_vanguard"));
    assert_eq!(room.teams[0].id, TeamId::new("team_a"));
    assert_eq!(room.teams[1].name, "Team B");
    assert_eq!(room.version, 1);
    assert_eq!(room.created_at, 100);
    assert_eq!(RoleName::Guardian.as_slug(), "guardian");
}

#[test]
fn every_role_has_its_stats() {
    assert_eq!(RoleName::Striker.stats(), RoleStats { hp: 9, movement: 3, attack_range: 3, attack_damage: 3 });
    assert_eq!(RoleName::Medic.stats(), RoleStats { hp: 8, movement: 3, attack_range: 2, attack_damage: 1 });
    assert_eq!(RoleName::Guardian.stats(), RoleStats { hp: 12, movement: 2, attack_range: 2, attack_damage: 2 });
    assert_eq!(RoleName::Engineer.stats(), RoleStats { hp: 10, movement: 2, attack_range: 3, attack_damage: 2 });
    assert_eq!(RoleStats::for_role(RoleName::Scout), RoleName::Scout.stats());
}

#[test]
fn ids_hold_their_text() {
    let room_id = RoomId::new("room-123");
    assert_eq!(room_id.as_str(), "room-123");
    assert_eq!(room_id.clone().into_inner(), "room-123");
    assert_eq!(room_id, RoomId::from("room-123".to_string()));
    assert_ne!(room_id, RoomId::new("room-124"));
    assert_eq!(PlayerId::from(String::from("p")).as_str(), "p");
}
