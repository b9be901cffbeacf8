use vstd::prelude::*;

verus! {

/// One grid cell: sight-blocking, passability, and explored-state flags.
///
/// A tile is immutable once carved except `explored`, which only ever
/// moves from `false` to `true`.
#[derive(Clone, Copy, Debug, PartialEq, Eq, Structural)]
pub struct Tile {
    pub blocks_sight: bool,
    pub explored: bool,
    pub passable: bool,
}

impl Tile {
    /// The value of a carved, walkable cell.
    pub open spec fn empty_spec() -> Tile {
        Tile { blocks_sight: false, explored: false, passable: true }
    }

    /// The value of a solid, uncarved cell.
    pub open spec fn wall_spec() -> Tile {
        Tile { blocks_sight: true, explored: false, passable: false }
    }

    /// A carved, walkable cell: lets light and movement through.
    pub fn empty() -> (t: Tile)
        ensures
            t == Tile::empty_spec(),
    {
        Tile { blocks_sight: false, explored: false, passable: true }
    }

    /// A solid cell: blocks both sight and movement.
    pub fn wall() -> (t: Tile)
        ensures
            t == Tile::wall_spec(),
    {
        Tile { blocks_sight: true, explored: false, passable: false }
    }
}

} // verus!
