use std::str::FromStr;

use vstd::prelude::*;

use crate::error::ParseError;
use crate::text::str_eq;

verus! {

/// Weapons used at close range.
#[derive(Debug, Clone, Copy, PartialEq, Eq, Structural)]
pub enum MeleeWeapon {
    Fist,
    GreatClub,
}

/// The melee weapon that a name stands for, if any.
pub open spec fn melee_weapon_of_name(s: Seq<char>) -> Option<MeleeWeapon> {
    if s == "fist"@ {
        Some(MeleeWeapon::Fist)
    } else if s == "great_club"@ {
        Some(MeleeWeapon::GreatClub)
    } else {
        None
    }
}

impl MeleeWeapon {
    /// Reads a melee weapon's name.
    pub fn from_str(s: &str) -> (r: Result<MeleeWeapon, ParseError>)
        ensures
            r == (match melee_weapon_of_name(s@) {
                Some(w) => Ok(w),
                None => Err(ParseError::MeleeWeapon),
            }),
    {
        if str_eq(s, "fist") {
            Ok(MeleeWeapon::Fist)
        } else if str_eq(s, "great_club") {
            Ok(MeleeWeapon::GreatClub)
        } else {
            Err(ParseError::MeleeWeapon)
        }
    }
}

impl FromStr for MeleeWeapon {
    type Err = ParseError;

    fn from_str(s: &str) -> (r: Result<MeleeWeapon, ParseError>)
        ensures
            r == (match melee_weapon_of_name(s@) {
                Some(v) => Ok(v),
                None => Err(ParseError::MeleeWeapon),
            }),
    {
        MeleeWeapon::from_str(s)
    }
}

/// Weapons that fire projectiles.
#[derive(Debug, Clone, Copy, PartialEq, Eq, Structural)]
pub enum ProjectileWeapon {
    CrystalStaff,
}

/// The projectile weapon that a name stands for, if any.
pub open spec fn projectile_weapon_of_name(s: Seq<char>) -> Option<ProjectileWeapon> {
    if s == "crystal_staff"@ {
        Some(ProjectileWeapon::CrystalStaff)
    } else {
        None
    }
}

impl ProjectileWeapon {
    /// Reads a projectile weapon's name.
    pub fn from_str(s: &str) -> (r: Result<ProjectileWeapon, ParseError>)
        ensures
            r == (match projectile_weapon_of_name(s@) {
                Some(w) => Ok(w),
                None => Err(ParseError::ProjectileWeapon),
            }),
    {
        if str_eq(s, "crystal_staff") {
            Ok(ProjectileWeapon::CrystalStaff)
        } else {
            Err(ParseError::ProjectileWeapon)
        }
    }
}

impl FromStr for ProjectileWeapon {
    type Err = ParseError;

    fn from_str(s: &str) -> (r: Result<ProjectileWeapon, ParseError>)
        ensures
            r == (match projectile_weapon_of_name(s@) {
                Some(v) => Ok(v),
                None => Err(ParseError::ProjectileWeapon),
            }),
    {
        ProjectileWeapon::from_str(s)
    }
}

/// A weapon of either kind.
#[derive(Debug, Clone, Copy, PartialEq, Eq, Structural)]
pub enum Weapon {
    Melee(MeleeWeapon),
    Projectile(ProjectileWeapon),
}

} // verus!
