//! Tiles, their terrain, and how each is drawn.

use crate::canvas::{Canvas, DrawCall, Rect};
use crate::outline::{outline_of, resolve_outline, OutlineShape};
use crate::projection::{fits_i32, project, screen_x, screen_y};
use vstd::prelude::*;

verus! {

#[derive(Clone, Copy, Debug, PartialEq, Eq, Structural)]
pub enum Terrain {
    /// Low noise. Drawn as a raised block, and not passable.
    Coal,
    Grass,
    Flowers,
}

/// One cell of the map.
#[derive(Clone, Copy, Debug, PartialEq, Eq, Structural)]
pub struct Tile {
    pub x: i32,
    pub y: i32,
    pub terrain: Terrain,
}

/// Where each terrain sits on the sprite sheet.
pub open spec fn sprite_of(terrain: Terrain) -> Rect {
    match terrain {
        Terrain::Grass => Rect { x: 32, y: 16, w: 16, h: 16 },
        Terrain::Flowers => Rect { x: 16, y: 16, w: 16, h: 16 },
        Terrain::Coal => Rect { x: 48, y: 8, w: 16, h: 24 },
    }
}

/// The outline drawn on the tile under the pointer.
pub open spec fn hover_sprite() -> Rect {
    Rect { x: 0, y: 16, w: 16, h: 8 }
}

/// The outline drawn on the tile that the pointer has left.
pub open spec fn leave_sprite() -> Rect {
    Rect { x: 0, y: 24, w: 16, h: 8 }
}

/// Where a tile is drawn: a box two scales wide and two scales high. Coal is
/// three scales high and starts one scale further up.
pub open spec fn tile_dst(tile: Tile, scale: int, viewport_width: int) -> Rect {
    let left = screen_x(tile.x as int, tile.y as int, scale, viewport_width);
    let top = screen_y(tile.x as int, tile.y as int, scale);
    if tile.terrain == Terrain::Coal {
        Rect { x: left as i32, y: (top - scale) as i32, w: (2 * scale) as u32, h: (3 * scale) as u32 }
    } else {
        Rect { x: left as i32, y: top as i32, w: (2 * scale) as u32, h: (2 * scale) as u32 }
    }
}

/// Nothing in `tile_dst` is out of the range of its type.
pub open spec fn tile_dst_fits(tile: Tile, scale: int, viewport_width: int) -> bool {
    let left = screen_x(tile.x as int, tile.y as int, scale, viewport_width);
    let top = screen_y(tile.x as int, tile.y as int, scale);
    &&& 0 <= scale
    &&& fits_i32(viewport_width)
    &&& fits_i32(left)
    &&& if tile.terrain == Terrain::Coal {
        fits_i32(top - scale) && 3 * scale <= u32::MAX
    } else {
        fits_i32(top)
    }
}

/// The sprite region of an outline of the given shape: a half outline takes
/// the matching half of the region.
pub open spec fn shaped_sprite(sprite: Rect, shape: OutlineShape) -> Rect {
    match shape {
        OutlineShape::Full => sprite,
        OutlineShape::LeftHalf => Rect { w: sprite.w / 2, ..sprite },
        OutlineShape::RightHalf => Rect {
            x: (sprite.x + sprite.w / 2) as i32,
            w: sprite.w / 2,
            ..sprite
        },
        OutlineShape::Hidden => sprite,
    }
}

/// Where an outline is drawn: on the top face of the tile, two scales wide
/// and one high. A half outline is one scale wide, and the right half starts
/// one scale further right.
pub open spec fn outline_dst(tile: Tile, scale: int, viewport_width: int, shape: OutlineShape)
    -> Rect {
    let left = screen_x(tile.x as int, tile.y as int, scale, viewport_width);
    let top = screen_y(tile.x as int, tile.y as int, scale);
    match shape {
        OutlineShape::LeftHalf => Rect {
            x: left as i32,
            y: top as i32,
            w: scale as u32,
            h: scale as u32,
        },
        OutlineShape::RightHalf => Rect {
            x: (left + scale) as i32,
            y: top as i32,
            w: scale as u32,
            h: scale as u32,
        },
        _ => Rect { x: left as i32, y: top as i32, w: (2 * scale) as u32, h: scale as u32 },
    }
}

/// Nothing in `outline_dst` is out of the range of its type. Of a hidden
/// outline nothing is asked.
pub open spec fn outline_dst_fits(tile: Tile, scale: int, viewport_width: int, shape: OutlineShape)
    -> bool {
    let left = screen_x(tile.x as int, tile.y as int, scale, viewport_width);
    let top = screen_y(tile.x as int, tile.y as int, scale);
    shape != OutlineShape::Hidden ==> {
        &&& 0 <= scale
        &&& fits_i32(viewport_width)
        &&& fits_i32(left)
        &&& fits_i32(top)
        &&& shape == OutlineShape::RightHalf ==> fits_i32(left + scale)
    }
}

/// Nothing in `shaped_sprite` is out of the range of its type.
pub open spec fn shaped_sprite_fits(sprite: Rect, shape: OutlineShape) -> bool {
    shape == OutlineShape::RightHalf ==> fits_i32(sprite.x + sprite.w / 2)
}

/// What drawing the outline of `tile` puts on the canvas: one blit, or
/// nothing where the outline is hidden.
pub open spec fn outline_calls(
    tile: Tile,
    tiles: Seq<Tile>,
    scale: int,
    viewport_width: int,
    sprite: Rect,
) -> Seq<DrawCall> {
    let shape = outline_of(tile, tiles);
    if shape == OutlineShape::Hidden {
        Seq::empty()
    } else {
        seq![
            DrawCall::Blit {
                src: shaped_sprite(sprite, shape),
                dst: outline_dst(tile, scale, viewport_width, shape),
            },
        ]
    }
}

pub fn terrain_sprite(terrain: Terrain) -> (r: Rect)
    ensures
        r == sprite_of(terrain),
{
    match terrain {
        Terrain::Grass => Rect::new(32, 16, 16, 16),
        Terrain::Flowers => Rect::new(16, 16, 16, 16),
        Terrain::Coal => Rect::new(48, 8, 16, 24),
    }
}

pub fn hover_outline_sprite() -> (r: Rect)
    ensures
        r == hover_sprite(),
{
    Rect::new(0, 16, 16, 8)
}

pub fn leave_outline_sprite() -> (r: Rect)
    ensures
        r == leave_sprite(),
{
    Rect::new(0, 24, 16, 8)
}

impl Tile {
    /// Draws the tile on `canvas` at the given scale.
    pub fn render(&self, canvas: &mut Canvas, scale: i32)
        requires
            tile_dst_fits(*self, scale as int, old(canvas).viewport_width as int),
        ensures
            final(canvas).viewport_width == old(canvas).viewport_width,
            final(canvas).calls@ == old(canvas).calls@.push(
                DrawCall::Blit {
                    src: sprite_of(self.terrain),
                    dst: tile_dst(*self, scale as int, old(canvas).viewport_width as int),
                },
            ),
    {
        let (left, top) = project(self.x, self.y, scale, canvas.viewport_width as i32);
        let src = terrain_sprite(self.terrain);
        let dst = match self.terrain {
            Terrain::Coal => Rect::new(
                left as i32,
                (top - scale as i128) as i32,
                scale as u32 * 2,
                scale as u32 * 3,
            ),
            _ => Rect::new(left as i32, top as i32, scale as u32 * 2, scale as u32 * 2),
        };
        canvas.blit(src, dst);
    }

    /// Draws the outline of the tile on `canvas`, shaped by the coal around
    /// it, from the sprite region `outline_sprite`. The region is narrowed to
    /// the part that was drawn. Where the outline is hidden, nothing is drawn
    /// and the region is left as it was.
    pub fn render_outline(
        &self,
        canvas: &mut Canvas,
        scale: i32,
        outline_sprite: &mut Rect,
        map: &Vec<Tile>,
    )
        requires
            outline_dst_fits(
                *self,
                scale as int,
                old(canvas).viewport_width as int,
                outline_of(*self, map@),
            ),
            shaped_sprite_fits(*old(outline_sprite), outline_of(*self, map@)),
        ensures
            final(canvas).viewport_width == old(canvas).viewport_width,
            final(canvas).calls@ == old(canvas).calls@ + outline_calls(
                *self,
                map@,
                scale as int,
                old(canvas).viewport_width as int,
                *old(outline_sprite),
            ),
            *final(outline_sprite) == shaped_sprite(*old(outline_sprite), outline_of(*self, map@)),
    {
        let shape = resolve_outline(self, map);
        match shape {
            OutlineShape::Hidden => {
                assert(canvas.calls@ + Seq::<DrawCall>::empty() =~= canvas.calls@);
                return ;
            },
            _ => {},
        }
        let (left, top) = project(self.x, self.y, scale, canvas.viewport_width as i32);
        let mut dst = Rect::new(left as i32, top as i32, scale as u32 * 2, scale as u32);
        match shape {
            OutlineShape::LeftHalf => {
                outline_sprite.w = outline_sprite.w / 2;
                dst.w = dst.w / 2;
            },
            OutlineShape::RightHalf => {
                outline_sprite.w = outline_sprite.w / 2;
                outline_sprite.x = outline_sprite.x + outline_sprite.w as i32;
                dst.w = dst.w / 2;
                dst.x = dst.x + scale;
            },
            _ => {},
        }
        canvas.blit(*outline_sprite, dst);
        assert(canvas.calls@ =~= old(canvas).calls@ + seq![
            DrawCall::Blit { src: *outline_sprite, dst },
        ]);
    }

    /// Shifts the tile by `(x, y)` cells. The map is panned by shifting every
    /// tile alike.
    pub fn move_tiles(&mut self, x: i32, y: i32)
        requires
            fits_i32(old(self).x + x),
            fits_i32(old(self).y + y),
        ensures
            final(self).x == old(self).x + x,
            final(self).y == old(self).y + y,
            final(self).terrain == old(self).terrain,
    {
        self.x += x;
        self.y += y;
    }
}

} // verus!
