use tinyraycaster::lecture::{GameMap as TextMap, MapError};
use tinyraycaster::map::GameMap;
use tinyraycaster::player::{
    update_controls, walk_probe, Accel, KeyInput, TurnState, WalkState,
};
use tinyraycaster::ray::CollidableObject;
use tinyraycaster::state::GameState;
use tinyraycaster::state_file::{classify_entity, split_state_line, Entity, StateError};
use tinyraycaster::enemy::{EnemyState, EnemyType};
use tinyraycaster::error::ParseError;
use tinyraycaster::tiles::{Tile, TileState, TileType};

fn lines(v: &[&str]) -> Vec<String> {
    v.iter().map(|s| s.to_string()).collect()
}

fn tile(x: usize, y: usize, typ: TileType) -> Tile {
    Tile { x, y, state: TileState::Base, typ }
}

#[test]
fn load_map_places_tiles() {
    let gs: GameState<u32> = GameState::new(&lines(&["000", "0 1", " 2x5 "]));
    assert_eq!(gs.map.h, 3);
    // the last row is "2x5" once trimmed
    assert_eq!(gs.map.w, 3);
    assert_eq!(gs.get_tile(0, 0), Some(&tile(0, 0, TileType::Rock)));
    assert_eq!(gs.get_tile(1, 1), None);
    assert_eq!(gs.get_tile(2, 1), Some(&tile(2, 1, TileType::Dirt)));
    assert_eq!(gs.get_tile(0, 2), Some(&tile(0, 2, TileType::RedBrick)));
    assert_eq!(gs.get_tile(1, 2), None);
    assert_eq!(gs.get_tile(2, 2), Some(&tile(2, 2, TileType::Brick)));
    assert_eq!(gs.get_tile(7, 7), None);
    // ids follow reading order
    assert_eq!(gs.map.get_tile_id(0, 0), Some(&0));
    assert_eq!(gs.map.get_tile_id(2, 1), Some(&4));
    assert_eq!(gs.map.get_tile_id(2, 2), Some(&6));
    assert_eq!(gs.id_tile_map.len(), 7);
    assert!(gs.id_enemy_map.is_empty());
}

#[test]
fn load_empty_map() {
    let gs: GameState<u32> = GameState::new(&Vec::new());
    assert_eq!(gs.map.w, 0);
    assert_eq!(gs.map.h, 0);
    assert!(gs.get_tiles().is_empty());
}

#[test]
fn map_width_counts_bytes() {
    let gs: GameState<u32> = GameState::new(&lines(&["0é"]));
    assert_eq!(gs.map.w, 3);
    assert_eq!(gs.get_tile(0, 0), Some(&tile(0, 0, TileType::Rock)));
}

#[test]
fn spawn_tile_reads_back() {
    let mut gs: GameState<u32> = GameState::new(&lines(&["00"]));
    let t = tile(5, 4, TileType::Door);
    gs.spawn_tile(t);
    assert_eq!(gs.get_tile(5, 4), Some(&t));
    assert_eq!(gs.map.get_tile_id(5, 4), Some(&2));
    // placing over an existing tile replaces it in that cell
    let t2 = tile(0, 0, TileType::SolidRock);
    gs.spawn_tile(t2);
    assert_eq!(gs.get_tile(0, 0), Some(&t2));
    assert_eq!(gs.get_tile(1, 0), Some(&tile(1, 0, TileType::Rock)));
    assert_eq!(gs.get_tile(5, 4), Some(&t));
    assert_eq!(gs.id_tile_map.len(), 4);
}

#[test]
fn spawn_enemy_lists() {
    let mut gs: GameState<&str> = GameState::default();
    gs.spawn_enemy("first", 1, 1);
    assert_eq!(gs.map.enemies.get(&(1, 1)), Some(&vec![0]));
    gs.spawn_enemy("second", 1, 1);
    gs.spawn_enemy("third", 2, 1);
    gs.spawn_enemy("fourth", 1, 1);
    assert_eq!(gs.map.enemies.get(&(1, 1)), Some(&vec![0, 1, 3]));
    assert_eq!(gs.map.enemies.get(&(2, 1)), Some(&vec![2]));
    assert_eq!(gs.id_enemy_map.get(&3), Some(&"fourth"));
    assert_eq!(gs.id_enemy_map.len(), 4);
    assert!(gs.id_tile_map.is_empty());
    assert!(gs.map.tiles.is_empty());
}

#[test]
fn tiles_row_by_row() {
    let gs: GameState<u32> = GameState::new(&lines(&["0 ", "13"]));
    let all = gs.get_tiles();
    assert_eq!(all.len(), 4);
    assert_eq!(all[0], (0, 0, Some(&tile(0, 0, TileType::Rock))));
    assert_eq!(all[1], (1, 0, None));
    assert_eq!(all[2], (0, 1, Some(&tile(0, 1, TileType::Dirt))));
    assert_eq!(all[3], (1, 1, Some(&tile(1, 1, TileType::Door))));
    let ids = gs.map.get_tile_ids();
    assert_eq!(ids.len(), 4);
    assert_eq!(ids[1], (1, 0, None));
    assert_eq!(ids[3], (1, 1, Some(&2)));
}

#[test]
fn default_map_is_empty() {
    let m = GameMap::default();
    assert_eq!(m.w, 0);
    assert_eq!(m.h, 0);
    assert!(m.tiles.is_empty());
    assert!(m.enemies.is_empty());
    assert!(m.visible.is_empty());
}

#[test]
fn state_line_fields() {
    assert_eq!(split_state_line("# comment\twith\ttabs").map(|f| f.is_some()), Ok(false));
    let f = split_state_line("  enemy\torc\tbase\t3.5\t4.5\t0  ").unwrap().unwrap();
    assert_eq!(f.typ, "enemy");
    assert_eq!(f.lbl, "orc");
    assert_eq!(f.state, "base");
    assert_eq!(f.x, "3.5");
    assert_eq!(f.y, "4.5");
    assert_eq!(f.angle, "0");
    // a trailing empty field is white space, and goes with the trimming
    assert_eq!(split_state_line("enemy\torc\tbase\t3.5\t4.5\t").err(), Some(StateError::Format));
    let e = split_state_line("enemy\t\tbase\t3.5\t4.5\t1").unwrap().unwrap();
    assert_eq!(e.lbl, "");
    let g = split_state_line("tile\tdoor\tbase\t1\t2\t0.5").unwrap().unwrap();
    assert_eq!(g.angle, "0.5");
    assert_eq!(split_state_line("tile\tdoor\tbase\t1\t2").err(), Some(StateError::Format));
    assert_eq!(split_state_line("a\tb\tc\td\te\tf\tg").err(), Some(StateError::Format));
    assert_eq!(split_state_line("").err(), Some(StateError::Format));
}

#[test]
fn entity_kinds() {
    assert_eq!(
        classify_entity("enemy", "imp", "enraged"),
        Ok(Entity::Enemy(EnemyType::Imp, EnemyState::Enraged))
    );
    assert_eq!(
        classify_entity("tile", "brick", "base"),
        Ok(Entity::Tile(TileType::Brick, TileState::Base))
    );
    assert_eq!(classify_entity("player", "x", "y"), Ok(Entity::Player));
    assert_eq!(classify_entity("light", "orc", "base"), Err(StateError::EntityType));
    assert_eq!(
        classify_entity("enemy", "elf", "base"),
        Err(StateError::Name(ParseError::EnemyType))
    );
    assert_eq!(
        classify_entity("enemy", "orc", "asleep"),
        Err(StateError::Name(ParseError::EnemyState))
    );
    assert_eq!(
        classify_entity("tile", "glass", "base"),
        Err(StateError::Name(ParseError::TileType))
    );
    assert_eq!(
        classify_entity("tile", "door", "open"),
        Err(StateError::Name(ParseError::TileState))
    );
}

#[test]
fn controls_per_frame() {
    let none = KeyInput {
        released_a: false,
        released_d: false,
        released_w: false,
        down_w: false,
        down_a: false,
        down_s: false,
        down_d: false,
    };
    let step = update_controls(none, WalkState::Reverse, TurnState::Left);
    assert_eq!(step.walk, WalkState::Reverse);
    assert_eq!(step.turn, TurnState::Left);
    assert_eq!(step.accels, vec![Accel::Drag]);

    let forward = KeyInput { down_w: true, down_a: true, ..none };
    let step = update_controls(forward, WalkState::Reverse, TurnState::Stop);
    assert_eq!(step.walk, WalkState::Forward);
    assert_eq!(step.turn, TurnState::Left);
    assert_eq!(step.accels, vec![Accel::Forward, Accel::Drag]);

    let both = KeyInput { down_w: true, down_s: true, down_a: true, down_d: true, ..none };
    let step = update_controls(both, WalkState::Forward, TurnState::Stop);
    assert_eq!(step.walk, WalkState::Reverse);
    assert_eq!(step.turn, TurnState::Right);
    assert_eq!(step.accels, vec![Accel::Forward, Accel::Reverse, Accel::Drag]);

    let release = KeyInput { released_w: true, released_d: true, ..none };
    let step = update_controls(release, WalkState::Forward, TurnState::Right);
    assert_eq!(step.walk, WalkState::Forward);
    assert_eq!(step.turn, TurnState::Stop);
    assert_eq!(step.accels, vec![Accel::Release, Accel::Drag]);
}

#[test]
fn walk_probe_stops() {
    let gs: GameState<u32> = GameState::new(&lines(&["0", "02"]));
    assert_eq!(walk_probe(&gs.map, 1, 1, false), (true, Some(CollidableObject::Tile(2))));
    assert_eq!(walk_probe(&gs.map, 0, 0, true), (true, Some(CollidableObject::Tile(0))));
    assert_eq!(walk_probe(&gs.map, 1, 0, true), (true, None));
    assert_eq!(walk_probe(&gs.map, 1, 0, false), (false, None));
}

#[test]
fn lecture_map_text() {
    let mut gs: GameState<u32> = GameState::default();
    let m = TextMap::new(&lines(&["0 0", " 010 ", "2 2"]), &mut gs).unwrap();
    assert_eq!(m.src, "0 00102 2");
    assert_eq!(m.w, 3);
    assert_eq!(m.h, 3);
    assert_eq!(gs.get_tile(1, 1), Some(&tile(1, 1, TileType::Dirt)));
    assert_eq!(gs.get_tile(1, 0), None);
    assert_eq!(gs.id_tile_map.len(), 7);
}

#[test]
fn lecture_map_not_rectangular() {
    let mut gs: GameState<u32> = GameState::default();
    let r = TextMap::new(&lines(&["00", "0"]), &mut gs);
    assert_eq!(r.err(), Some(MapError::NotRectangular));
    // the tiles read before the check stay registered
    assert_eq!(gs.id_tile_map.len(), 3);
    let m = TextMap::new(&lines(&["0 0", "   ", "000"]), &mut gs);
    assert!(m.is_err());
    // rows of lengths 1, 3 and 2 hold as many bytes as 3 rows of 2, and are
    // still refused
    let mut gs2: GameState<u32> = GameState::default();
    let m = TextMap::new(&lines(&["1", "111", "11"]), &mut gs2);
    assert_eq!(m.err(), Some(MapError::NotRectangular));
    assert_eq!(gs2.id_tile_map.len(), 6);
    let m = TextMap::new(&Vec::new(), &mut gs2).unwrap();
    assert_eq!((m.w, m.h, m.src.as_str()), (0, 0, ""));
}

#[test]
fn lecture_map_cells() {
    let mut gs: GameState<u32> = GameState::default();
    let m = TextMap::new(&lines(&["000", "0 0", "000"]), &mut gs).unwrap();
    assert!(m.is_empty(1, 1));
    assert!(!m.is_empty(0, 1));
    assert!(m.is_in_bounds(1, 1));
    assert!(m.is_in_bounds(2, 2));
    assert!(!m.is_in_bounds(0, 1));
    assert!(!m.is_in_bounds(1, 3));
    assert!(!m.is_in_bounds(-1, 1));
}

#[test]
fn overview_rects() {
    let gs: GameState<u32> = GameState::new(&lines(&["0 1", "2 ", "345"]));
    // rows: "0 1", "2", "345"; w = 3, h = 3
    let rects = gs.map_tile_rects(31, 20);
    assert_eq!(rects.len(), 6);
    assert_eq!(rects[0], (0, 0, 10, 6, tile(0, 0, TileType::Rock)));
    assert_eq!(rects[1], (20, 0, 10, 6, tile(2, 0, TileType::Dirt)));
    assert_eq!(rects[2], (0, 6, 10, 6, tile(0, 1, TileType::RedBrick)));
    assert_eq!(rects[5], (20, 12, 10, 6, tile(2, 2, TileType::Brick)));
}
