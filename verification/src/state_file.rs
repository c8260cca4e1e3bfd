//! The state file: one entity per line, as tab-separated fields
//! `type  label  state  x  y  angle`; lines that start with `#` are comments.
use itertools::Itertools;

use vstd::prelude::*;

use crate::enemy::{enemy_state_of_name, enemy_type_of_name, EnemyState, EnemyType};
use crate::error::ParseError;
use crate::text::{split_on, split_seq, str_eq, trim, trim_seq, views};
use crate::tiles::{tile_state_of_name, tile_type_of_name, TileState, TileType};

verus! {

/// Why a line of the state file was refused.
#[derive(Debug, Clone, Copy, PartialEq, Eq, Structural)]
pub enum StateError {
    /// The line does not hold exactly six tab-separated fields.
    Format,
    /// The first field names no entity type.
    EntityType,
    /// A label or state name that is not known.
    Name(ParseError),
}

/// The six fields of a state line.
#[derive(Debug, Clone, Copy)]
pub struct StateFields<'a> {
    pub typ: &'a str,
    pub lbl: &'a str,
    pub state: &'a str,
    pub x: &'a str,
    pub y: &'a str,
    pub angle: &'a str,
}

/// Calls itertools' `Itertools::collect_tuple` on the pieces, asking for six.
/// Claims, as its documentation says: `Some` exactly when there are six
/// pieces, holding them in order.
#[verifier::external_body]
fn collect_six<'a>(pieces: Vec<&'a str>) -> (r: Option<(&'a str, &'a str, &'a str, &'a str, &'a str, &'a str)>)
    ensures
        r is Some <==> pieces.len() == 6,
        r matches Some(t) ==> {
            &&& t.0 == pieces@[0]
            &&& t.1 == pieces@[1]
            &&& t.2 == pieces@[2]
            &&& t.3 == pieces@[3]
            &&& t.4 == pieces@[4]
            &&& t.5 == pieces@[5]
        },
{
    pieces.into_iter().collect_tuple()
}

/// Whether a state line is a comment.
pub open spec fn comment_line(line: Seq<char>) -> bool {
    line.len() > 0 && line[0] == '#'
}

/// The fields of a state line: its tab-separated pieces, once leading and
/// trailing white space is removed.
pub open spec fn line_fields(line: Seq<char>) -> Seq<Seq<char>> {
    split_seq(trim_seq(line), '\t')
}

/// Splits a line of the state file into its fields. A comment gives
/// `Ok(None)`; a line without exactly six fields is refused.
pub fn split_state_line<'a>(line: &'a str) -> (r: Result<Option<StateFields<'a>>, StateError>)
    ensures
        comment_line(line@) ==> r == Ok::<Option<StateFields<'a>>, StateError>(None),
        !comment_line(line@) && line_fields(line@).len() != 6 ==> r == Err::<
            Option<StateFields<'a>>,
            StateError,
        >(StateError::Format),
        !comment_line(line@) && line_fields(line@).len() == 6 ==> (r matches Ok(Some(f)) && {
            let p = line_fields(line@);
            &&& f.typ@ == p[0]
            &&& f.lbl@ == p[1]
            &&& f.state@ == p[2]
            &&& f.x@ == p[3]
            &&& f.y@ == p[4]
            &&& f.angle@ == p[5]
        }),
{
    if line.unicode_len() > 0 && line.get_char(0) == '#' {
        return Ok(None);
    }
    let pieces = split_on(trim(line), '\t');
    assert(pieces.len() == views(pieces@).len());
    match collect_six(pieces) {
        Some((typ, lbl, state, x, y, angle)) => {
            proof {
                assert(views(pieces@)[0] == pieces@[0]@);
                assert(views(pieces@)[1] == pieces@[1]@);
                assert(views(pieces@)[2] == pieces@[2]@);
                assert(views(pieces@)[3] == pieces@[3]@);
                assert(views(pieces@)[4] == pieces@[4]@);
                assert(views(pieces@)[5] == pieces@[5]@);
            }
            Ok(Some(StateFields { typ, lbl, state, x, y, angle }))
        },
        None => Err(StateError::Format),
    }
}

/// What a state line places: an enemy, a tile, or the player.
#[derive(Debug, Clone, Copy, PartialEq, Eq, Structural)]
pub enum Entity {
    Enemy(EnemyType, EnemyState),
    Tile(TileType, TileState),
    Player,
}

/// What the type, label and state fields of a state line describe.
pub open spec fn entity_of(typ: Seq<char>, lbl: Seq<char>, state: Seq<char>) -> Result<Entity, StateError> {
    if typ == "enemy"@ {
        match enemy_type_of_name(lbl) {
            None => Err(StateError::Name(ParseError::EnemyType)),
            Some(t) => match enemy_state_of_name(state) {
                None => Err(StateError::Name(ParseError::EnemyState)),
                Some(s) => Ok(Entity::Enemy(t, s)),
            },
        }
    } else if typ == "tile"@ {
        match tile_type_of_name(lbl) {
            None => Err(StateError::Name(ParseError::TileType)),
            Some(t) => match tile_state_of_name(state) {
                None => Err(StateError::Name(ParseError::TileState)),
                Some(s) => Ok(Entity::Tile(t, s)),
            },
        }
    } else if typ == "player"@ {
        Ok(Entity::Player)
    } else {
        Err(StateError::EntityType)
    }
}

/// The name that the state file uses for an enemy type.
pub open spec fn enemy_type_name(t: EnemyType) -> Seq<char> {
    match t {
        EnemyType::Orc => "orc"@,
        EnemyType::Imp => "imp"@,
    }
}

/// The name that the state file uses for an enemy state.
pub open spec fn enemy_state_name(s: EnemyState) -> Seq<char> {
    match s {
        EnemyState::Base => "base"@,
        EnemyState::Injured => "injured"@,
        EnemyState::Enraged => "enraged"@,
        EnemyState::Dead => "dead"@,
    }
}

/// The name that the state file uses for a tile type.
pub open spec fn tile_type_name(t: TileType) -> Seq<char> {
    match t {
        TileType::Rock => "rock"@,
        TileType::Dirt => "dirt"@,
        TileType::RedBrick => "red_brick"@,
        TileType::Door => "door"@,
        TileType::SolidRock => "solid_rock"@,
        TileType::Brick => "brick"@,
    }
}

/// An enemy line whose label and state are known names places exactly the
/// enemy they name: its type is the one the label names, its state the one
/// the state field names.
pub proof fn enemy_line_places_named_enemy(lbl: Seq<char>, state: Seq<char>)
    ensures
        enemy_type_of_name(lbl) is Some && enemy_state_of_name(state) is Some ==> entity_of(
            "enemy"@,
            lbl,
            state,
        ) == Ok::<Entity, StateError>(
            Entity::Enemy(enemy_type_of_name(lbl)->0, enemy_state_of_name(state)->0),
        ),
{
}

/// A tile line whose label and state are known names places exactly the
/// tile they name.
pub proof fn tile_line_places_named_tile(lbl: Seq<char>, state: Seq<char>)
    ensures
        tile_type_of_name(lbl) is Some && tile_state_of_name(state) is Some ==> entity_of(
            "tile"@,
            lbl,
            state,
        ) == Ok::<Entity, StateError>(
            Entity::Tile(tile_type_of_name(lbl)->0, tile_state_of_name(state)->0),
        ),
{
    reveal_strlit("tile");
    reveal_strlit("enemy");
    assert("tile"@[0] != "enemy"@[0]);
}

/// Writing an enemy's type and state by their names and reading the line
/// back gives that enemy, for every enemy type and state.
pub proof fn enemy_names_read_back(t: EnemyType, s: EnemyState)
    ensures
        entity_of("enemy"@, enemy_type_name(t), enemy_state_name(s)) == Ok::<Entity, StateError>(
            Entity::Enemy(t, s),
        ),
{
    reveal_strlit("enemy");
    reveal_strlit("tile");
    reveal_strlit("orc");
    reveal_strlit("imp");
    reveal_strlit("base");
    reveal_strlit("injured");
    reveal_strlit("enraged");
    reveal_strlit("dead");
    assert("orc"@[0] != "imp"@[0]);
    assert("injured"@[0] != "base"@[0]);
    assert("enraged"@[0] != "base"@[0]);
    assert("enraged"@[0] != "injured"@[0]);
    assert("dead"@[0] != "base"@[0]);
    assert("dead"@[0] != "injured"@[0]);
    assert("dead"@[0] != "enraged"@[0]);
}

/// Writing a tile's type and state by their names and reading the line back
/// gives that tile, for every tile type and state.
pub proof fn tile_names_read_back(t: TileType, s: TileState)
    ensures
        entity_of("tile"@, tile_type_name(t), "base"@) == Ok::<Entity, StateError>(
            Entity::Tile(t, s),
        ),
{
    reveal_strlit("enemy");
    reveal_strlit("tile");
    reveal_strlit("rock");
    reveal_strlit("dirt");
    reveal_strlit("red_brick");
    reveal_strlit("door");
    reveal_strlit("solid_rock");
    reveal_strlit("brick");
    reveal_strlit("base");
    assert("enemy"@[0] != "tile"@[0]);
    assert("rock"@[0] != "dirt"@[0]);
    assert("rock"@.len() != "red_brick"@.len());
    assert("rock"@[0] != "door"@[0]);
    assert("rock"@.len() != "solid_rock"@.len());
    assert("rock"@.len() != "brick"@.len());
    assert("dirt"@.len() != "red_brick"@.len());
    assert("dirt"@[1] != "door"@[1]);
    assert("dirt"@.len() != "solid_rock"@.len());
    assert("dirt"@.len() != "brick"@.len());
    assert("red_brick"@.len() != "door"@.len());
    assert("red_brick"@.len() != "solid_rock"@.len());
    assert("red_brick"@.len() != "brick"@.len());
    assert("door"@.len() != "solid_rock"@.len());
    assert("door"@.len() != "brick"@.len());
    assert("solid_rock"@.len() != "brick"@.len());
}

/// Reads the type, label and state fields of a state line.
pub fn classify_entity(typ: &str, lbl: &str, state: &str) -> (r: Result<Entity, StateError>)
    ensures
        r == entity_of(typ@, lbl@, state@),
        // an enemy line places the enemy its label and state names
        typ@ == "enemy"@ && enemy_type_of_name(lbl@) is Some && enemy_state_of_name(state@) is Some
            ==> r == Ok::<Entity, StateError>(
            Entity::Enemy(enemy_type_of_name(lbl@)->0, enemy_state_of_name(state@)->0),
        ),
        // a tile line places the tile its label and state names
        typ@ == "tile"@ && tile_type_of_name(lbl@) is Some && tile_state_of_name(state@) is Some
            ==> r == Ok::<Entity, StateError>(
            Entity::Tile(tile_type_of_name(lbl@)->0, tile_state_of_name(state@)->0),
        ),
{
    proof {
        reveal_strlit("tile");
        reveal_strlit("enemy");
        assert("tile"@[0] != "enemy"@[0]);
    }
    if str_eq(typ, "enemy") {
        let t = match EnemyType::from_str(lbl) {
            Ok(t) => t,
            Err(e) => return Err(StateError::Name(e)),
        };
        let s = match EnemyState::from_str(state) {
            Ok(s) => s,
            Err(e) => return Err(StateError::Name(e)),
        };
        Ok(Entity::Enemy(t, s))
    } else if str_eq(typ, "tile") {
        let t = match TileType::from_str(lbl) {
            Ok(t) => t,
            Err(e) => return Err(StateError::Name(e)),
        };
        let s = match TileState::from_str(state) {
            Ok(s) => s,
            Err(e) => return Err(StateError::Name(e)),
        };
        Ok(Entity::Tile(t, s))
    } else if str_eq(typ, "player") {
        Ok(Entity::Player)
    } else {
        Err(StateError::EntityType)
    }
}

} // verus!
