//! Checkerboard material: which tile a surface point falls on.
use vstd::prelude::*;

verus! {

/// The two kinds of tile of the checkerboard material.
#[derive(Clone, Copy, Debug, PartialEq, Eq, Structural)]
pub enum Tile {
    /// White, weakly reflective tile.
    Light,
    /// Black, strongly reflective tile.
    Dark,
}

/// A tile index (the integer `floor(z) + floor(x)` of a surface point) is on a
/// light tile exactly when it is odd.
pub open spec fn tile_of(index: int) -> Tile {
    if index % 2 == 1 {
        Tile::Light
    } else {
        Tile::Dark
    }
}

/// The tile at a given tile index: odd indices are light, even ones dark.
pub fn checker_tile(index: i32) -> (r: Tile)
    ensures
        r == tile_of(index as int),
{
    if index % 2 != 0 {
        Tile::Light
    } else {
        Tile::Dark
    }
}

/// Two points whose tile indices differ by one (one unit step along `x` or
/// `z`) lie on tiles of opposite colour.
pub proof fn lemma_neighbour_tiles_differ(index: int)
    ensures
        tile_of(index) != tile_of(index + 1),
{
}

} // verus!
