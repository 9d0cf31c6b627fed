//! The viewport: zoom level, pan offset, and the cell last hovered.
//!
//! Panning moves the map, not a camera: every tile is shifted, and the same
//! shift is added to the offset, so that the square `[offset, offset + size)`
//! is where the map then lies.

use crate::tile::Tile;
use vstd::prelude::*;

verus! {

/// Smallest and largest zoom level.
pub const MIN_TILE_SCALE: i32 = 3;

pub const MAX_TILE_SCALE: i32 = 60;

/// Below this zoom level outlines are too small to read, and hovering draws
/// nothing.
pub const HOVER_MIN_SCALE: i32 = 8;

/// No tile and no offset goes further than this from the origin. It keeps
/// every projected pixel position within `i32` at every zoom level.
pub const COORD_LIMIT: i32 = 0x80_0000;

#[derive(Clone, Copy, Debug, PartialEq, Eq)]
pub struct ViewportState {
    /// Zoom level: half the width of a tile in pixels.
    pub tile_scale: i32,
    /// Sum of the pans made so far.
    pub x_offset: i32,
    pub y_offset: i32,
    /// The cell whose outline was drawn last, if any.
    pub prev_hover: Option<(i32, i32)>,
}

/// `scale` brought into the range of zoom levels.
pub open spec fn clamped_scale(scale: int) -> int {
    if scale < MIN_TILE_SCALE {
        MIN_TILE_SCALE as int
    } else if scale > MAX_TILE_SCALE {
        MAX_TILE_SCALE as int
    } else {
        scale
    }
}

/// One step in, unless at the ceiling.
pub open spec fn zoomed_in(scale: int) -> int {
    if scale < MAX_TILE_SCALE {
        scale + 1
    } else {
        scale
    }
}

/// One step out, unless at the floor.
pub open spec fn zoomed_out(scale: int) -> int {
    if scale > MIN_TILE_SCALE {
        scale - 1
    } else {
        scale
    }
}

/// `steps` steps in.
pub open spec fn zoomed_in_times(scale: int, steps: nat) -> int
    decreases steps,
{
    if steps == 0 {
        scale
    } else {
        zoomed_in(zoomed_in_times(scale, (steps - 1) as nat))
    }
}

/// `steps` steps out.
pub open spec fn zoomed_out_times(scale: int, steps: nat) -> int
    decreases steps,
{
    if steps == 0 {
        scale
    } else {
        zoomed_out(zoomed_out_times(scale, (steps - 1) as nat))
    }
}

/// `v` lies within `bound` of zero.
pub open spec fn within(v: int, bound: int) -> bool {
    -bound <= v <= bound
}

/// Every tile lies within `bound` of the origin on both axes.
pub open spec fn tiles_within(tiles: Seq<Tile>, bound: int) -> bool {
    forall|i: int|
        0 <= i < tiles.len() ==> within((#[trigger] tiles[i]).x as int, bound) && within(
            tiles[i].y as int,
            bound,
        )
}

/// Every tile stays within the limit when moved by `(dx, dy)`.
pub open spec fn can_shift(tiles: Seq<Tile>, dx: int, dy: int) -> bool {
    forall|i: int|
        0 <= i < tiles.len() ==> within((#[trigger] tiles[i]).x + dx, COORD_LIMIT as int)
            && within(tiles[i].y + dy, COORD_LIMIT as int)
}

/// The tile moved by `(dx, dy)`.
pub open spec fn shifted_tile(tile: Tile, dx: int, dy: int) -> Tile {
    Tile { x: (tile.x + dx) as i32, y: (tile.y + dy) as i32, terrain: tile.terrain }
}

/// Every tile moved by `(dx, dy)`.
pub open spec fn shifted(tiles: Seq<Tile>, dx: int, dy: int) -> Seq<Tile> {
    Seq::new(tiles.len(), |i: int| shifted_tile(tiles[i], dx, dy))
}

impl ViewportState {
    /// The zoom level is within its range and the offset within the limit.
    pub open spec fn wf(&self) -> bool {
        &&& MIN_TILE_SCALE <= self.tile_scale <= MAX_TILE_SCALE
        &&& within(self.x_offset as int, COORD_LIMIT as int)
        &&& within(self.y_offset as int, COORD_LIMIT as int)
    }

    /// The cell lies on the map, which has been panned with the viewport.
    pub open spec fn covers(&self, cell: (i32, i32), map_size: int) -> bool {
        &&& self.x_offset <= cell.0 < map_size + self.x_offset
        &&& self.y_offset <= cell.1 < map_size + self.y_offset
    }

    /// The viewport after a pan by `(dx, dy)`.
    pub open spec fn panned(&self, dx: int, dy: int) -> ViewportState {
        ViewportState {
            x_offset: (self.x_offset + dx) as i32,
            y_offset: (self.y_offset + dy) as i32,
            ..*self
        }
    }

    /// A viewport that has not been panned and has hovered nothing. The zoom
    /// level is brought into its range.
    pub fn new(tile_scale: i32) -> (state: ViewportState)
        ensures
            state.wf(),
            state.tile_scale == clamped_scale(tile_scale as int),
            state.x_offset == 0,
            state.y_offset == 0,
            state.prev_hover == None::<(i32, i32)>,
    {
        let scale = if tile_scale < MIN_TILE_SCALE {
            MIN_TILE_SCALE
        } else if tile_scale > MAX_TILE_SCALE {
            MAX_TILE_SCALE
        } else {
            tile_scale
        };
        ViewportState { tile_scale: scale, x_offset: 0, y_offset: 0, prev_hover: None }
    }

    /// Zooms in by one step and says whether the zoom level changed.
    pub fn zoom_in(&mut self) -> (changed: bool)
        ensures
            final(self).tile_scale == zoomed_in(old(self).tile_scale as int),
            old(self).wf() ==> final(self).wf(),
            final(self).x_offset == old(self).x_offset,
            final(self).y_offset == old(self).y_offset,
            final(self).prev_hover == old(self).prev_hover,
            changed == (final(self).tile_scale != old(self).tile_scale),
    {
        if self.tile_scale < MAX_TILE_SCALE {
            self.tile_scale += 1;
            true
        } else {
            false
        }
    }

    /// Zooms out by one step and says whether the zoom level changed.
    pub fn zoom_out(&mut self) -> (changed: bool)
        ensures
            final(self).tile_scale == zoomed_out(old(self).tile_scale as int),
            old(self).wf() ==> final(self).wf(),
            final(self).x_offset == old(self).x_offset,
            final(self).y_offset == old(self).y_offset,
            final(self).prev_hover == old(self).prev_hover,
            changed == (final(self).tile_scale != old(self).tile_scale),
    {
        if self.tile_scale > MIN_TILE_SCALE {
            self.tile_scale -= 1;
            true
        } else {
            false
        }
    }

    /// Adds a pan to the offset.
    pub fn pan(&mut self, dx: i32, dy: i32)
        requires
            i32::MIN <= old(self).x_offset + dx <= i32::MAX,
            i32::MIN <= old(self).y_offset + dy <= i32::MAX,
        ensures
            *final(self) == old(self).panned(dx as int, dy as int),
            final(self).x_offset == old(self).x_offset + dx,
            final(self).y_offset == old(self).y_offset + dy,
    {
        self.x_offset += dx;
        self.y_offset += dy;
    }

    /// Whether the cell lies on a map of `map_size` by `map_size` cells that
    /// has been panned with this viewport.
    pub fn in_bounds(&self, cell: (i32, i32), map_size: i32) -> (inside: bool)
        ensures
            inside == self.covers(cell, map_size as int),
    {
        let x = cell.0 as i64;
        let y = cell.1 as i64;
        let left = self.x_offset as i64;
        let top = self.y_offset as i64;
        let size = map_size as i64;
        left <= x && x < size + left && top <= y && y < size + top
    }
}

/// Shifts every tile of the map by `(dx, dy)`.
pub fn pan_tiles(map: &mut Vec<Tile>, dx: i32, dy: i32)
    requires
        can_shift(old(map)@, dx as int, dy as int),
    ensures
        final(map)@ == shifted(old(map)@, dx as int, dy as int),
        tiles_within(final(map)@, COORD_LIMIT as int),
{
    let mut i: usize = 0;
    while i < map.len()
        invariant
            i <= map.len(),
            map@.len() == old(map)@.len(),
            can_shift(old(map)@, dx as int, dy as int),
            forall|j: int|
                0 <= j < i ==> #[trigger] map@[j] == shifted_tile(
                    old(map)@[j],
                    dx as int,
                    dy as int,
                ),
            forall|j: int| i <= j < map@.len() ==> #[trigger] map@[j] == old(map)@[j],
        decreases map.len() - i,
    {
        assert(within(map@[i as int].x + dx, COORD_LIMIT as int));
        map[i].move_tiles(dx, dy);
        i += 1;
    }
    assert(map@ =~= shifted(old(map)@, dx as int, dy as int));
    assert forall|j: int| 0 <= j < map@.len() implies within(
        (#[trigger] map@[j]).x as int,
        COORD_LIMIT as int,
    ) && within(map@[j].y as int, COORD_LIMIT as int) by {
        assert(within(old(map)@[j].x + dx, COORD_LIMIT as int));
    }
}

/// However often the zoom is stepped, the level stays between the floor and
/// the ceiling. From the ceiling, stepping in leaves it there; from the
/// floor, stepping out leaves it there.
pub proof fn lemma_zoom_is_clamped(scale: int, steps: nat)
    requires
        MIN_TILE_SCALE <= scale <= MAX_TILE_SCALE,
    ensures
        MIN_TILE_SCALE <= zoomed_in_times(scale, steps) <= MAX_TILE_SCALE,
        MIN_TILE_SCALE <= zoomed_out_times(scale, steps) <= MAX_TILE_SCALE,
        zoomed_in_times(MAX_TILE_SCALE as int, steps) == MAX_TILE_SCALE,
        zoomed_out_times(MIN_TILE_SCALE as int, steps) == MIN_TILE_SCALE,
    decreases steps,
{
    if steps > 0 {
        lemma_zoom_is_clamped(scale, (steps - 1) as nat);
    }
}

/// Shifting the tiles by `(dx, dy)` and then by `(-dx, -dy)` puts every tile
/// back where it was.
pub proof fn lemma_shift_back(tiles: Seq<Tile>, dx: int, dy: int)
    requires
        can_shift(tiles, dx, dy),
    ensures
        shifted(shifted(tiles, dx, dy), -dx, -dy) == tiles,
{
    let there = shifted(tiles, dx, dy);
    let back = shifted(there, -dx, -dy);
    assert forall|i: int| 0 <= i < tiles.len() implies back[i] == tiles[i] by {
        assert(within(tiles[i].x + dx, COORD_LIMIT as int));
        assert(there[i] == shifted_tile(tiles[i], dx, dy));
    }
    assert(back =~= tiles);
}

/// Panning the viewport by `(dx, dy)` and then by `(-dx, -dy)` puts the
/// offset back where it was.
pub proof fn lemma_pan_back(view: ViewportState, dx: int, dy: int)
    requires
        within(view.x_offset + dx, COORD_LIMIT as int),
        within(view.y_offset + dy, COORD_LIMIT as int),
    ensures
        view.panned(dx, dy).panned(-dx, -dy) == view,
{
}

} // verus!
