use std::str::FromStr;

use tinyraycaster::enemy::{EnemyState, EnemyType};
use tinyraycaster::error::ParseError;
use tinyraycaster::player::{TurnState, WalkState};
use tinyraycaster::tiles::{TileState, TileType};
use tinyraycaster::weapon::{MeleeWeapon, ProjectileWeapon};

#[test]
fn tile_type_from_char() {
    assert_eq!(TileType::try_from('0'), Ok(TileType::Rock));
    assert_eq!(TileType::try_from('1'), Ok(TileType::Dirt));
    assert_eq!(TileType::try_from('2'), Ok(TileType::RedBrick));
    assert_eq!(TileType::try_from('3'), Ok(TileType::Door));
    assert_eq!(TileType::try_from('4'), Ok(TileType::SolidRock));
    assert_eq!(TileType::try_from('5'), Ok(TileType::Brick));
    assert_eq!(TileType::try_from('6'), Err(ParseError::TileChar('6')));
    assert_eq!(TileType::try_from(' '), Err(ParseError::TileChar(' ')));
}

#[test]
fn tile_char_round_trip_all_types() {
    let all = [
        TileType::Rock,
        TileType::Dirt,
        TileType::RedBrick,
        TileType::Door,
        TileType::SolidRock,
        TileType::Brick,
    ];
    for t in all {
        let c: char = char::from(t);
        assert_eq!(TileType::try_from(c), Ok(t));
    }
    assert_eq!(char::from(TileType::Door), '3');
}

#[test]
fn tile_names() {
    assert_eq!(TileType::from_str("rock"), Ok(TileType::Rock));
    assert_eq!(TileType::from_str("dirt"), Ok(TileType::Dirt));
    assert_eq!(TileType::from_str("red_brick"), Ok(TileType::RedBrick));
    assert_eq!(TileType::from_str("door"), Ok(TileType::Door));
    assert_eq!(TileType::from_str("solid_rock"), Ok(TileType::SolidRock));
    assert_eq!(TileType::from_str("brick"), Ok(TileType::Brick));
    assert_eq!(TileType::from_str("Brick"), Err(ParseError::TileType));
    assert_eq!(TileType::from_str(""), Err(ParseError::TileType));
    assert_eq!(TileState::from_str("base"), Ok(TileState::Base));
    assert_eq!(TileState::from_str("broken"), Err(ParseError::TileState));
    assert_eq!("door".parse::<TileType>(), Ok(TileType::Door));
}

#[test]
fn enemy_names_and_chars() {
    assert_eq!(EnemyType::from_str("orc"), Ok(EnemyType::Orc));
    assert_eq!(EnemyType::from_str("imp"), Ok(EnemyType::Imp));
    assert_eq!(EnemyType::from_str("troll"), Err(ParseError::EnemyType));
    assert_eq!(EnemyState::from_str("base"), Ok(EnemyState::Base));
    assert_eq!(EnemyState::from_str("injured"), Ok(EnemyState::Injured));
    assert_eq!(EnemyState::from_str("enraged"), Ok(EnemyState::Enraged));
    assert_eq!(EnemyState::from_str("dead"), Ok(EnemyState::Dead));
    assert_eq!(EnemyState::from_str("Dead"), Err(ParseError::EnemyState));
    assert_eq!(char::from(EnemyType::Orc), 'a');
    assert_eq!(char::from(EnemyType::Imp), 'b');
    assert_eq!("imp".parse::<EnemyType>(), Ok(EnemyType::Imp));
}

#[test]
fn weapon_names() {
    assert_eq!(MeleeWeapon::from_str("fist"), Ok(MeleeWeapon::Fist));
    assert_eq!(MeleeWeapon::from_str("great_club"), Ok(MeleeWeapon::GreatClub));
    assert_eq!(MeleeWeapon::from_str("club"), Err(ParseError::MeleeWeapon));
    assert_eq!(ProjectileWeapon::from_str("crystal_staff"), Ok(ProjectileWeapon::CrystalStaff));
    assert_eq!(ProjectileWeapon::from_str("staff"), Err(ParseError::ProjectileWeapon));
}

#[test]
fn direction_signs() {
    assert_eq!(WalkState::Forward.sign(), 1);
    assert_eq!(WalkState::Reverse.sign(), -1);
    assert_eq!(TurnState::Left.sign(), -1);
    assert_eq!(TurnState::Stop.sign(), 0);
    assert_eq!(TurnState::Right.sign(), 1);
}
