use vstd::prelude::*;

verus! {

/// Collidable object ID
#[derive(Debug, Clone, Copy, PartialEq, Eq, Structural)]
pub enum CollidableObject {
    Tile(usize),
}

} // verus!
