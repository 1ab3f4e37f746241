use promptops_arena_backend::domain::error::{DomainError, MapValidationError};
use promptops_arena_backend::domain::ids::{MapId, MatchId, NodeId, RoomId};
use promptops_arena_backend::domain::map::{parse_map, ControlNode, GameMap, Position, Tile};
use promptops_arena_backend::domain::match_::{Match, MatchConfigSnapshot, MatchStatus};
use promptops_arena_backend::domain::team::TeamSide;

const VALID_MAP: &str = r#"
        .  .  .  #  .  .  o  N  o  .  .  #  .  .  .
        A  A  .  #  .  .  .  .  .  .  .  #  .  B  B
        A  A  .  .  .  #  o  .  o  #  .  .  .  B  B
        .  .  .  o  .  .  .  .  .  .  .  o  .  .  .
        .  A  .  .  .  o  .  C  .  o  .  .  .  B  .
        .  .  .  o  .  .  .  .  .  .  .  o  .  .  .
        A  A  .  .  .  #  o  .  o  #  .  .  .  B  B
        A  A  .  #  .  .  .  .  .  .  .  #  .  B  B
        .  .  .  #  .  .  o  S  o  .  .  #  .  .  .
    "#;

#[test]
fn test_parse_valid_map() {
    let (map, nodes) = parse_map(MapId::new("test"), VALID_MAP).unwrap();
    assert_eq!(map.width, 15);
    assert_eq!(map.height, 9);
    assert_eq!(nodes.len(), 3);

    let core = nodes.iter().find(|n| n.id.as_str() == "core-terminal").unwrap();
    assert_eq!(core.position, Position::new(7, 4));
    assert_eq!(core.score_value, 2);

    assert_eq!(
        map.get_tile(&Position::new(7, 4)).unwrap(),
        &Tile::Node { node_id: NodeId::new("core-terminal") }
    );
    assert_eq!(map.get_tile(&Position::new(0, 1)).unwrap(), &Tile::Spawn { team_side: TeamSide::A });
    assert_eq!(map.get_tile(&Position::new(13, 1)).unwrap(), &Tile::Spawn { team_side: TeamSide::B });
}

#[test]
fn test_parse_invalid_dimensions() {
    let bad_map = r#"
            . . .
            A B C
        "#;
    assert!(parse_map(MapId::new("test"), bad_map).is_err());
}

#[test]
fn test_manhattan_distance() {
    let p1 = Position::new(0, 0);
    let p2 = Position::new(3, 4);
    assert_eq!(p1.manhattan_distance(&p2), 7);
}

#[test]
fn test_match_creation() {
    let match_id = MatchId::new("match-1");
    let room_id = RoomId::new("room-1");
    let config_snapshot = MatchConfigSnapshot { map_id: MapId::new("map-1"), max_turns: 8, teams: vec![] };
    let created_at = 123456789;

    let m = Match::new(match_id.clone(), room_id.clone(), config_snapshot.clone(), created_at);
    assert_eq!(m.id, match_id);
    assert_eq!(m.room_id, room_id);
    assert_eq!(m.status, MatchStatus::Created);
    assert_eq!(m.config_snapshot, config_snapshot);
    assert_eq!(m.current_turn, 0);
    assert_eq!(m.result, None);
    assert_eq!(m.created_at, created_at);
}

// Further cases of the map format and of positions.

fn map_error(text: &str) -> MapValidationError {
    match parse_map(MapId::new("test"), text) {
        Err(DomainError::InvalidMap(e)) => e,
        other => panic!("expected a map error, got {:?}", other.map(|(m, _)| m.width)),
    }
}

#[test]
fn parsed_map_lists_nodes_in_reading_order_with_names_and_scores() {
    let (map, nodes) = parse_map(MapId::new("test"), VALID_MAP).unwrap();
    assert_eq!(map.id, MapId::new("test"));
    assert_eq!(nodes, map.nodes);
    assert_eq!(nodes[0].id, NodeId::new("north-relay"));
    assert_eq!(nodes[0].name, "North Relay");
    assert_eq!(nodes[0].position, Position::new(7, 0));
    assert_eq!(nodes[0].score_value, 1);
    assert_eq!(nodes[2].id, NodeId::new("south-relay"));
    assert_eq!(nodes[2].position, Position::new(7, 8));
    assert!(nodes.iter().all(|n| n.controlled_by.is_none()));
    assert_eq!(map.get_tile(&Position::new(3, 0)), Some(&Tile::Wall));
    assert_eq!(map.get_tile(&Position::new(6, 0)), Some(&Tile::Cover));
    assert_eq!(map.get_tile(&Position::new(0, 0)), Some(&Tile::Normal));
}

#[test]
fn get_tile_outside_the_map_is_none() {
    let (map, _) = parse_map(MapId::new("test"), VALID_MAP).unwrap();
    assert_eq!(map.get_tile(&Position::new(-1, 0)), None);
    assert_eq!(map.get_tile(&Position::new(15, 0)), None);
    assert_eq!(map.get_tile(&Position::new(0, 9)), None);
    assert_eq!(map.get_tile(&Position::new(14, 8)), Some(&Tile::Normal));
}

#[test]
fn map_text_errors_come_in_checking_order() {
    assert_eq!(map_error("  \n \t \n"), MapValidationError::EmptyInput);
    assert_eq!(
        map_error(". . .\n. .\n"),
        MapValidationError::InconsistentRowWidth { row: 1, expected: 3, actual: 2 }
    );
    assert_eq!(map_error(". x .\n"), MapValidationError::InvalidTile { x: 1, y: 0 });
    assert_eq!(map_error(". .. .\n"), MapValidationError::InvalidTile { x: 1, y: 0 });
    assert_eq!(map_error(". . .\nA B C\n"), MapValidationError::WrongHeight { actual: 2, expected: 9 });
    let narrow = ". . .\n".repeat(9);
    assert_eq!(map_error(&narrow), MapValidationError::WrongWidth { actual: 3, expected: 15 });
    let no_nodes = VALID_MAP.replace('N', ".").replace('C', ".").replace('S', ".");
    assert_eq!(map_error(&no_nodes), MapValidationError::WrongControlNodeCount { actual: 0, expected: 3 });
    let two_norths = VALID_MAP.replace('S', "N");
    assert_eq!(map_error(&two_norths), MapValidationError::MissingControlNode);
    let no_a = VALID_MAP.replace('A', ".");
    assert_eq!(map_error(&no_a), MapValidationError::MissingSpawn { side: TeamSide::A });
    let no_b = VALID_MAP.replace('B', "#");
    assert_eq!(map_error(&no_b), MapValidationError::MissingSpawn { side: TeamSide::B });
}

#[test]
fn map_text_accepts_carriage_returns_and_blank_lines() {
    let text = VALID_MAP.replace('\n', "\r\n\r\n");
    let (map, nodes) = parse_map(MapId::new("test"), &text).unwrap();
    assert_eq!((map.width, map.height, nodes.len()), (15, 9, 3));
}

fn grid_rows() -> [&'static str; 9] {
    [
        "...#..o.o..#...",
        "AA.#.......#.BB",
        "AA...#o.o#...BB",
        "...o.......o...",
        ".A...o...o...B.",
        "...o.......o...",
        "AA...#o.o#...BB",
        "AA.#.......#.BB",
        "...#..o.o..#...",
    ]
}

fn grid_nodes() -> Vec<ControlNode> {
    vec![
        ControlNode::new(NodeId::new("north-relay"), "North Relay".to_string(), Position::new(7, 0), 1),
        ControlNode::new(NodeId::new("core-terminal"), "Core Terminal".to_string(), Position::new(7, 4), 2),
        ControlNode::new(NodeId::new("south-relay"), "South Relay".to_string(), Position::new(7, 8), 1),
    ]
}

#[test]
fn grid_maps_put_nodes_on_their_tiles() {
    let map = GameMap::parse(MapId::new("grid"), &grid_rows(), &grid_nodes()).unwrap();
    assert_eq!((map.width, map.height), (15, 9));
    assert_eq!(map.nodes, grid_nodes());
    assert_eq!(map.get_tile(&Position::new(7, 4)), Some(&Tile::Node { node_id: NodeId::new("core-terminal") }));
    assert_eq!(map.get_tile(&Position::new(13, 4)), Some(&Tile::Spawn { team_side: TeamSide::B }));
    assert!(map.has_spawn(TeamSide::A));
}

#[test]
fn grid_maps_refuse_bad_rows_and_misplaced_nodes() {
    let mut rows = grid_rows();
    rows[2] = "AA...#o.o#...B";
    assert_eq!(
        GameMap::parse(MapId::new("grid"), &rows, &grid_nodes()),
        Err(DomainError::InvalidMap(MapValidationError::WrongWidth { actual: 14, expected: 15 }))
    );
    rows[2] = "AA...#o.o#..XBB";
    assert_eq!(
        GameMap::parse(MapId::new("grid"), &rows, &grid_nodes()),
        Err(DomainError::InvalidMap(MapValidationError::InvalidTile { x: 12, y: 2 }))
    );

    let mut nodes = grid_nodes();
    nodes[1].position = Position::new(3, 0);
    assert_eq!(
        GameMap::parse(MapId::new("grid"), &grid_rows(), &nodes),
        Err(DomainError::InvalidMap(MapValidationError::InvalidControlNodePosition {
            node_id: NodeId::new("core-terminal")
        }))
    );
    nodes[1].position = Position::new(7, 0);
    assert_eq!(
        GameMap::parse(MapId::new("grid"), &grid_rows(), &nodes),
        Err(DomainError::InvalidMap(MapValidationError::InvalidControlNodePosition {
            node_id: NodeId::new("core-terminal")
        }))
    );
    nodes[1].position = Position::new(15, 4);
    assert!(GameMap::parse(MapId::new("grid"), &grid_rows(), &nodes).is_err());

    let no_spawn_b: Vec<String> = grid_rows().iter().map(|r| r.replace('B', ".")).collect();
    let no_spawn_b: Vec<&str> = no_spawn_b.iter().map(|r| r.as_str()).collect();
    assert_eq!(
        GameMap::parse(MapId::new("grid"), &no_spawn_b, &grid_nodes()),
        Err(DomainError::InvalidMap(MapValidationError::MissingSpawn { side: TeamSide::B }))
    );
}

#[test]
fn manhattan_distance_is_symmetric_and_counts_both_axes() {
    let a = Position::new(-2, 5);
    let b = Position::new(3, -1);
    assert_eq!(a.manhattan_distance(&b), 11);
    assert_eq!(b.manhattan_distance(&a), 11);
    assert_eq!(a.manhattan_distance(&a), 0);
}

#[test]
fn default_map_is_the_default_text() {
    let map = GameMap::default_15x9().unwrap();
    let (parsed, nodes) = parse_map(MapId::new("default-15x9"), VALID_MAP).unwrap();
    assert_eq!(map, parsed);
    assert_eq!(map.nodes, nodes);
}
