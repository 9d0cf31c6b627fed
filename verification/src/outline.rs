//! Which part of a tile's hover outline is visible.
//!
//! Coal stands taller than the other terrains and hides what lies behind it.
//! The outline of a tile depends on whether coal stands on the three cells
//! to its right, below it, and right below it.

use crate::tile::{Terrain, Tile};
use vstd::prelude::*;

verus! {

/// The part of an outline that is drawn.
#[derive(Clone, Copy, Debug, PartialEq, Eq, Structural)]
pub enum OutlineShape {
    /// Both edges are visible.
    Full,
    /// The right-facing half is hidden; the left half is drawn.
    LeftHalf,
    /// The left-facing half is hidden; the right half is drawn.
    RightHalf,
    /// Nothing is drawn.
    Hidden,
}

/// `t` is a coal tile on the cell `(x, y)`.
pub open spec fn is_coal_at(t: Tile, x: int, y: int) -> bool {
    t.x == x && t.y == y && t.terrain == Terrain::Coal
}

/// Some tile of `tiles` is coal on the cell `(x, y)`.
pub open spec fn coal_at(tiles: Seq<Tile>, x: int, y: int) -> bool {
    exists|i: int| 0 <= i < tiles.len() && is_coal_at(#[trigger] tiles[i], x, y)
}

/// The decision table, by the presence of coal to the right, below, and right
/// below. Only three of the eight combinations draw anything.
pub open spec fn outline_shape(right: bool, below: bool, right_below: bool) -> OutlineShape {
    if !right && !below && !right_below {
        OutlineShape::Full
    } else if right && !below && !right_below {
        OutlineShape::LeftHalf
    } else if !right && below && !right_below {
        OutlineShape::RightHalf
    } else {
        OutlineShape::Hidden
    }
}

/// The outline of `tile` among `tiles`.
pub open spec fn outline_of(tile: Tile, tiles: Seq<Tile>) -> OutlineShape {
    outline_shape(
        coal_at(tiles, tile.x + 1, tile.y as int),
        coal_at(tiles, tile.x as int, tile.y + 1),
        coal_at(tiles, tile.x + 1, tile.y + 1),
    )
}

/// Whether some tile of `map` is coal on the cell `(x, y)`.
pub fn has_coal_at(map: &Vec<Tile>, x: i64, y: i64) -> (found: bool)
    ensures
        found == coal_at(map@, x as int, y as int),
{
    let mut i: usize = 0;
    while i < map.len()
        invariant
            i <= map.len(),
            forall|j: int| 0 <= j < i ==> !is_coal_at(#[trigger] map@[j], x as int, y as int),
        decreases map.len() - i,
    {
        let t = &map[i];
        let coal = match t.terrain {
            Terrain::Coal => true,
            _ => false,
        };
        if coal && t.x as i64 == x && t.y as i64 == y {
            assert(is_coal_at(map@[i as int], x as int, y as int));
            return true;
        }
        i += 1;
    }
    false
}

/// Looks at the three neighbours of `tile` and picks its outline.
pub fn resolve_outline(tile: &Tile, map: &Vec<Tile>) -> (shape: OutlineShape)
    ensures
        shape == outline_of(*tile, map@),
{
    let x: i64 = tile.x as i64;
    let y: i64 = tile.y as i64;
    let right = has_coal_at(map, x + 1, y);
    let below = has_coal_at(map, x, y + 1);
    let right_below = has_coal_at(map, x + 1, y + 1);
    if !right && !below && !right_below {
        OutlineShape::Full
    } else if right && !below && !right_below {
        OutlineShape::LeftHalf
    } else if !right && below && !right_below {
        OutlineShape::RightHalf
    } else {
        OutlineShape::Hidden
    }
}

/// A tile with no coal on any of the three cells shows its whole outline, and
/// a tile with coal both to its right and below it shows none.
pub proof fn lemma_outline_extremes(tile: Tile, tiles: Seq<Tile>)
    ensures
        !coal_at(tiles, tile.x + 1, tile.y as int) && !coal_at(tiles, tile.x as int, tile.y + 1)
            && !coal_at(tiles, tile.x + 1, tile.y + 1) ==> outline_of(tile, tiles)
            == OutlineShape::Full,
        coal_at(tiles, tile.x + 1, tile.y as int) && coal_at(tiles, tile.x as int, tile.y + 1)
            ==> outline_of(tile, tiles) == OutlineShape::Hidden,
{
}

} // verus!
