use vstd::prelude::*;

verus! {

/// The kind of one cell of the world.
#[derive(Clone, Copy, PartialEq, Eq, Debug, Structural)]
pub enum Tile {
    Wall,
    Floor,
    Asteroid,
    Nebula,
}

/// Floor and Nebula can be occupied; Wall and Asteroid cannot.
pub open spec fn passable(t: Tile) -> bool {
    t is Floor || t is Nebula
}

impl Tile {
    pub fn is_passable(&self) -> (r: bool)
        ensures
            r == passable(*self),
    {
        match self {
            Tile::Floor | Tile::Nebula => true,
            _ => false,
        }
    }
}

} // verus!
