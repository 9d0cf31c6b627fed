//! Drawing the whole map: one blit for each tile, in the order of the map,
//! between a clear and a present.

use crate::canvas::{Canvas, DrawCall};
use crate::outline::OutlineShape;
use crate::projection::{half_toward_zero, lemma_product_bound};
use crate::tile::{outline_dst_fits, sprite_of, tile_dst, tile_dst_fits, Tile};
use crate::viewport::{tiles_within, within, ViewportState, COORD_LIMIT, MAX_TILE_SCALE};
use vstd::prelude::*;

verus! {

/// The blit that draws one tile.
pub open spec fn tile_blit(tile: Tile, scale: int, viewport_width: int) -> DrawCall {
    DrawCall::Blit { src: sprite_of(tile.terrain), dst: tile_dst(tile, scale, viewport_width) }
}

/// The blits that draw the first `count` tiles, in the order of the map.
pub open spec fn tile_blits(tiles: Seq<Tile>, count: int, scale: int, viewport_width: int) -> Seq<
    DrawCall,
> {
    Seq::new(count as nat, |i: int| tile_blit(tiles[i], scale, viewport_width))
}

/// A full redraw: clear, every tile in the order of the map, present.
pub open spec fn redraw(tiles: Seq<Tile>, scale: int, viewport_width: int) -> Seq<DrawCall> {
    seq![DrawCall::Clear] + tile_blits(tiles, tiles.len() as int, scale, viewport_width)
        + seq![DrawCall::Present]
}

/// Within the limit, and at a zoom level up to the ceiling, a tile and its
/// outline can be drawn: every pixel position fits `i32`.
pub proof fn lemma_tile_fits(tile: Tile, scale: int, viewport_width: int)
    requires
        within(tile.x as int, COORD_LIMIT as int),
        within(tile.y as int, COORD_LIMIT as int),
        0 <= scale <= MAX_TILE_SCALE,
        0 <= viewport_width <= i32::MAX,
    ensures
        tile_dst_fits(tile, scale, viewport_width),
        forall|shape: OutlineShape| outline_dst_fits(tile, scale, viewport_width, shape),
{
    let across = tile.x - tile.y;
    let down = tile.x + tile.y;
    lemma_product_bound(across, scale, 2 * COORD_LIMIT, MAX_TILE_SCALE as int);
    lemma_product_bound(down, scale, 2 * COORD_LIMIT, MAX_TILE_SCALE as int);
    assert(2 * COORD_LIMIT * MAX_TILE_SCALE == 1_006_632_960);
    assert(0 <= half_toward_zero(viewport_width) <= 0x3fff_ffff);
    assert(within(half_toward_zero(down * scale), 1_006_632_960));
}

/// Clears the canvas, draws every tile in the order of the map, and presents.
pub fn render_map(map: &Vec<Tile>, canvas: &mut Canvas, scale: i32)
    requires
        forall|i: int|
            0 <= i < map@.len() ==> tile_dst_fits(
                #[trigger] map@[i],
                scale as int,
                old(canvas).viewport_width as int,
            ),
    ensures
        final(canvas).viewport_width == old(canvas).viewport_width,
        final(canvas).calls@ == old(canvas).calls@ + redraw(
            map@,
            scale as int,
            old(canvas).viewport_width as int,
        ),
{
    let ghost width = canvas.viewport_width as int;
    let ghost before = canvas.calls@;
    canvas.clear();
    let mut i: usize = 0;
    while i < map.len()
        invariant
            i <= map.len(),
            canvas.viewport_width == width,
            forall|j: int|
                0 <= j < map@.len() ==> tile_dst_fits(#[trigger] map@[j], scale as int, width),
            canvas.calls@ == before + seq![DrawCall::Clear] + tile_blits(
                map@,
                i as int,
                scale as int,
                width,
            ),
        decreases map.len() - i,
    {
        map[i].render(canvas, scale);
        i += 1;
    }
    canvas.present();
    assert(canvas.calls@ =~= before + redraw(map@, scale as int, width));
}

/// Redraws everything at the zoom level of the viewport.
pub fn redraw_all(map: &Vec<Tile>, state: &ViewportState, canvas: &mut Canvas)
    requires
        tiles_within(map@, COORD_LIMIT as int),
        0 <= state.tile_scale <= MAX_TILE_SCALE,
        old(canvas).viewport_width <= i32::MAX,
    ensures
        final(canvas).viewport_width == old(canvas).viewport_width,
        final(canvas).calls@ == old(canvas).calls@ + redraw(
            map@,
            state.tile_scale as int,
            old(canvas).viewport_width as int,
        ),
{
    assert forall|i: int| 0 <= i < map@.len() implies tile_dst_fits(
        #[trigger] map@[i],
        state.tile_scale as int,
        canvas.viewport_width as int,
    ) by {
        lemma_tile_fits(map@[i], state.tile_scale as int, canvas.viewport_width as int);
    }
    render_map(map, canvas, state.tile_scale);
}

} // verus!
