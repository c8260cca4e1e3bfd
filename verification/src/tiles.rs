use vstd::prelude::*;

use std::str::FromStr;

use crate::error::ParseError;
use crate::text::str_eq;

verus! {

/// The kinds of wall tile, each written in a map file as one digit.
#[derive(Debug, Clone, Copy, Hash, PartialEq, Eq, Structural)]
pub enum TileType {
    Rock,
    Dirt,
    RedBrick,
    Door,
    SolidRock,
    Brick,
}

/// The tile type that a map character stands for, if any.
pub open spec fn tile_type_of_char(c: char) -> Option<TileType> {
    if c == '0' {
        Some(TileType::Rock)
    } else if c == '1' {
        Some(TileType::Dirt)
    } else if c == '2' {
        Some(TileType::RedBrick)
    } else if c == '3' {
        Some(TileType::Door)
    } else if c == '4' {
        Some(TileType::SolidRock)
    } else if c == '5' {
        Some(TileType::Brick)
    } else {
        None
    }
}

/// The map character of a tile type.
pub open spec fn char_of_tile_type(t: TileType) -> char {
    match t {
        TileType::Rock => '0',
        TileType::Dirt => '1',
        TileType::RedBrick => '2',
        TileType::Door => '3',
        TileType::SolidRock => '4',
        TileType::Brick => '5',
    }
}

impl TryFrom<char> for TileType {
    type Error = ParseError;

    fn try_from(value: char) -> (r: Result<TileType, ParseError>) {
        if value == '0' {
            Ok(TileType::Rock)
        } else if value == '1' {
            Ok(TileType::Dirt)
        } else if value == '2' {
            Ok(TileType::RedBrick)
        } else if value == '3' {
            Ok(TileType::Door)
        } else if value == '4' {
            Ok(TileType::SolidRock)
        } else if value == '5' {
            Ok(TileType::Brick)
        } else {
            Err(ParseError::TileChar(value))
        }
    }
}

impl vstd::std_specs::convert::TryFromSpecImpl<char> for TileType {
    open spec fn obeys_try_from_spec() -> bool {
        true
    }

    open spec fn try_from_spec(v: char) -> Result<TileType, ParseError> {
        match tile_type_of_char(v) {
            Some(t) => Ok(t),
            None => Err(ParseError::TileChar(v)),
        }
    }
}

impl From<TileType> for char {
    fn from(value: TileType) -> (r: char) {
        match value {
            TileType::Rock => '0',
            TileType::Dirt => '1',
            TileType::RedBrick => '2',
            TileType::Door => '3',
            TileType::SolidRock => '4',
            TileType::Brick => '5',
        }
    }
}

impl vstd::std_specs::convert::FromSpecImpl<TileType> for char {
    open spec fn obeys_from_spec() -> bool {
        true
    }

    open spec fn from_spec(v: TileType) -> char {
        char_of_tile_type(v)
    }
}

/// Every tile type's character reads back as that tile type.
pub proof fn tile_char_round_trip(t: TileType)
    ensures
        tile_type_of_char(char_of_tile_type(t)) == Some(t),
{
}

/// A character that names a tile type is that type's character.
pub proof fn tile_char_unique(c: char)
    ensures
        tile_type_of_char(c) matches Some(t) ==> char_of_tile_type(t) == c,
{
}

/// The tile type that a state-file name stands for, if any.
pub open spec fn tile_type_of_name(s: Seq<char>) -> Option<TileType> {
    if s == "rock"@ {
        Some(TileType::Rock)
    } else if s == "dirt"@ {
        Some(TileType::Dirt)
    } else if s == "red_brick"@ {
        Some(TileType::RedBrick)
    } else if s == "door"@ {
        Some(TileType::Door)
    } else if s == "solid_rock"@ {
        Some(TileType::SolidRock)
    } else if s == "brick"@ {
        Some(TileType::Brick)
    } else {
        None
    }
}

impl TileType {
    /// Reads the name that the state file uses for this kind.
    pub fn from_str(s: &str) -> (r: Result<TileType, ParseError>)
        ensures
            r == (match tile_type_of_name(s@) {
                Some(t) => Ok(t),
                None => Err(ParseError::TileType),
            }),
    {
        if str_eq(s, "rock") {
            Ok(TileType::Rock)
        } else if str_eq(s, "dirt") {
            Ok(TileType::Dirt)
        } else if str_eq(s, "red_brick") {
            Ok(TileType::RedBrick)
        } else if str_eq(s, "door") {
            Ok(TileType::Door)
        } else if str_eq(s, "solid_rock") {
            Ok(TileType::SolidRock)
        } else if str_eq(s, "brick") {
            Ok(TileType::Brick)
        } else {
            Err(ParseError::TileType)
        }
    }
}

impl FromStr for TileType {
    type Err = ParseError;

    fn from_str(s: &str) -> (r: Result<TileType, ParseError>)
        ensures
            r == (match tile_type_of_name(s@) {
                Some(v) => Ok(v),
                None => Err(ParseError::TileType),
            }),
    {
        TileType::from_str(s)
    }
}

/// A wall tile placed on the grid.
#[derive(Debug, Clone, Copy, PartialEq, Eq, Structural)]
pub struct Tile {
    pub x: usize,
    pub y: usize,
    /// State
    pub state: TileState,
    /// Type of tile
    pub typ: TileType,
}

/// The states a tile can be in.
#[derive(Debug, Clone, Copy, Hash, PartialEq, Eq, Structural)]
pub enum TileState {
    Base,
}

/// The tile state that a state-file name stands for, if any.
pub open spec fn tile_state_of_name(s: Seq<char>) -> Option<TileState> {
    if s == "base"@ {
        Some(TileState::Base)
    } else {
        None
    }
}

impl TileState {
    /// Reads the name that the state file uses for this kind.
    pub fn from_str(s: &str) -> (r: Result<TileState, ParseError>)
        ensures
            r == (match tile_state_of_name(s@) {
                Some(t) => Ok(t),
                None => Err(ParseError::TileState),
            }),
    {
        if str_eq(s, "base") {
            Ok(TileState::Base)
        } else {
            Err(ParseError::TileState)
        }
    }
}

impl FromStr for TileState {
    type Err = ParseError;

    fn from_str(s: &str) -> (r: Result<TileState, ParseError>)
        ensures
            r == (match tile_state_of_name(s@) {
                Some(v) => Ok(v),
                None => Err(ParseError::TileState),
            }),
    {
        TileState::from_str(s)
    }
}

} // verus!
