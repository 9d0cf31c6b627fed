//! The drawing surface as the engine sees it: rectangles, draw calls, and a
//! canvas that records the calls made on it in order.

use vstd::prelude::*;

verus! {

/// An axis-aligned rectangle in pixels: top-left corner and extent.
#[derive(Clone, Copy, Debug, PartialEq, Eq, Structural)]
pub struct Rect {
    pub x: i32,
    pub y: i32,
    pub w: u32,
    pub h: u32,
}

impl Rect {
    pub fn new(x: i32, y: i32, w: u32, h: u32) -> (r: Rect)
        ensures
            r == (Rect { x, y, w, h }),
    {
        Rect { x, y, w, h }
    }
}

/// One operation on the drawing surface.
#[derive(Clone, Copy, Debug, PartialEq, Eq, Structural)]
pub enum DrawCall {
    /// Wipe the surface.
    Clear,
    /// Copy the region `src` of the sprite sheet to the region `dst` of the
    /// surface.
    Blit { src: Rect, dst: Rect },
    /// Show what has been drawn.
    Present,
}

/// A surface that remembers what was drawn on it. The calls are kept in the
/// order in which they were made; whoever owns the real surface replays them.
pub struct Canvas {
    /// Width of the visible area in pixels.
    pub viewport_width: u32,
    /// Every call made so far, oldest first.
    pub calls: Vec<DrawCall>,
}

impl Canvas {
    /// A canvas of the given width on which nothing has been drawn.
    pub fn new(viewport_width: u32) -> (c: Canvas)
        ensures
            c.viewport_width == viewport_width,
            c.calls@ == Seq::<DrawCall>::empty(),
    {
        Canvas { viewport_width, calls: Vec::new() }
    }

    pub fn clear(&mut self)
        ensures
            final(self).viewport_width == old(self).viewport_width,
            final(self).calls@ == old(self).calls@.push(DrawCall::Clear),
    {
        self.calls.push(DrawCall::Clear);
    }

    pub fn blit(&mut self, src: Rect, dst: Rect)
        ensures
            final(self).viewport_width == old(self).viewport_width,
            final(self).calls@ == old(self).calls@.push(DrawCall::Blit { src, dst }),
    {
        self.calls.push(DrawCall::Blit { src, dst });
    }

    pub fn present(&mut self)
        ensures
            final(self).viewport_width == old(self).viewport_width,
            final(self).calls@ == old(self).calls@.push(DrawCall::Present),
    {
        self.calls.push(DrawCall::Present);
    }

    /// Hands out the recorded calls and leaves the canvas empty.
    pub fn take_calls(&mut self) -> (calls: Vec<DrawCall>)
        ensures
            calls@ == old(self).calls@,
            final(self).calls@ == Seq::<DrawCall>::empty(),
            final(self).viewport_width == old(self).viewport_width,
    {
        let mut out: Vec<DrawCall> = Vec::new();
        std::mem::swap(&mut out, &mut self.calls);
        out
    }
}

} // verus!
