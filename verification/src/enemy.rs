use std::str::FromStr;

use vstd::prelude::*;

use crate::error::ParseError;
use crate::text::str_eq;

verus! {

/// The kinds of enemy.
#[derive(Debug, Clone, Copy, Hash, PartialEq, Eq, Structural)]
pub enum EnemyType {
    Orc,
    Imp,
}

/// The sprite-sheet character of an enemy type.
pub open spec fn char_of_enemy_type(t: EnemyType) -> char {
    match t {
        EnemyType::Orc => 'a',
        EnemyType::Imp => 'b',
    }
}

impl From<EnemyType> for char {
    fn from(value: EnemyType) -> (r: char) {
        match value {
            EnemyType::Orc => 'a',
            EnemyType::Imp => 'b',
        }
    }
}

impl vstd::std_specs::convert::FromSpecImpl<EnemyType> for char {
    open spec fn obeys_from_spec() -> bool {
        true
    }

    open spec fn from_spec(v: EnemyType) -> char {
        char_of_enemy_type(v)
    }
}

/// Different enemy types have different characters.
pub proof fn enemy_char_injective(a: EnemyType, b: EnemyType)
    ensures
        char_of_enemy_type(a) == char_of_enemy_type(b) ==> a == b,
{
}

/// The enemy type that a state-file name stands for, if any.
pub open spec fn enemy_type_of_name(s: Seq<char>) -> Option<EnemyType> {
    if s == "orc"@ {
        Some(EnemyType::Orc)
    } else if s == "imp"@ {
        Some(EnemyType::Imp)
    } else {
        None
    }
}

impl EnemyType {
    /// Reads the name that the state file uses for this kind.
    pub fn from_str(s: &str) -> (r: Result<EnemyType, ParseError>)
        ensures
            r == (match enemy_type_of_name(s@) {
                Some(t) => Ok(t),
                None => Err(ParseError::EnemyType),
            }),
    {
        if str_eq(s, "orc") {
            Ok(EnemyType::Orc)
        } else if str_eq(s, "imp") {
            Ok(EnemyType::Imp)
        } else {
            Err(ParseError::EnemyType)
        }
    }
}

impl FromStr for EnemyType {
    type Err = ParseError;

    fn from_str(s: &str) -> (r: Result<EnemyType, ParseError>)
        ensures
            r == (match enemy_type_of_name(s@) {
                Some(v) => Ok(v),
                None => Err(ParseError::EnemyType),
            }),
    {
        EnemyType::from_str(s)
    }
}

/// The states an enemy can be in.
#[derive(Debug, Clone, Copy, Hash, PartialEq, Eq, Structural)]
pub enum EnemyState {
    Base,
    Injured,
    Enraged,
    Dead,
}

/// The enemy state that a state-file name stands for, if any.
pub open spec fn enemy_state_of_name(s: Seq<char>) -> Option<EnemyState> {
    if s == "base"@ {
        Some(EnemyState::Base)
    } else if s == "injured"@ {
        Some(EnemyState::Injured)
    } else if s == "enraged"@ {
        Some(EnemyState::Enraged)
    } else if s == "dead"@ {
        Some(EnemyState::Dead)
    } else {
        None
    }
}

impl EnemyState {
    /// Reads the name that the state file uses for this state.
    pub fn from_str(s: &str) -> (r: Result<EnemyState, ParseError>)
        ensures
            r == (match enemy_state_of_name(s@) {
                Some(t) => Ok(t),
                None => Err(ParseError::EnemyState),
            }),
    {
        if str_eq(s, "base") {
            Ok(EnemyState::Base)
        } else if str_eq(s, "injured") {
            Ok(EnemyState::Injured)
        } else if str_eq(s, "enraged") {
            Ok(EnemyState::Enraged)
        } else if str_eq(s, "dead") {
            Ok(EnemyState::Dead)
        } else {
            Err(ParseError::EnemyState)
        }
    }
}

impl FromStr for EnemyState {
    type Err = ParseError;

    fn from_str(s: &str) -> (r: Result<EnemyState, ParseError>)
        ensures
            r == (match enemy_state_of_name(s@) {
                Some(v) => Ok(v),
                None => Err(ParseError::EnemyState),
            }),
    {
        EnemyState::from_str(s)
    }
}

} // verus!
