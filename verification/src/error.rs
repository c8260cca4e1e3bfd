use vstd::prelude::*;

verus! {

/// Why a name, a character or a line of the game's data files was refused.
#[derive(Debug, Clone, Copy, PartialEq, Eq, Structural)]
pub enum ParseError {
    /// A map character that names no tile type.
    TileChar(char),
    /// A tile type name that is not known.
    TileType,
    /// A tile state name that is not known.
    TileState,
    /// An enemy type name that is not known.
    EnemyType,
    /// An enemy state name that is not known.
    EnemyState,
    /// A melee weapon name that is not known.
    MeleeWeapon,
    /// A projectile weapon name that is not known.
    ProjectileWeapon,
}

} // verus!
