//! Input events and what the viewport does with them.
//!
//! Each event changes the map, the viewport, or neither, and leaves draw
//! calls on the canvas. `Scene` and `after_event` say what; `handle_event`
//! and `handle_controls` do it.

use crate::canvas::{Canvas, DrawCall, Rect};
use crate::map::{find_passable, first_passable, on_grid};
use crate::projection::{clamp_i32, iso_x, iso_y, pixel_to_iso};
use crate::render::{lemma_tile_fits, redraw, redraw_all};
use crate::tile::{
    hover_outline_sprite, hover_sprite, leave_outline_sprite, leave_sprite, outline_calls, Tile,
};
use crate::viewport::{
    can_shift, lemma_pan_back, lemma_shift_back, pan_tiles, shifted, tiles_within, within,
    zoomed_in, zoomed_out, ViewportState, COORD_LIMIT, HOVER_MIN_SCALE, MAX_TILE_SCALE,
    MIN_TILE_SCALE,
};
use vstd::prelude::*;

verus! {

/// The keys that the viewport listens to.
#[derive(Clone, Copy, Debug, PartialEq, Eq, Structural)]
pub enum Key {
    /// Quit.
    Escape,
    /// Zoom in.
    I,
    /// Zoom out.
    O,
    /// Pan by `(1, 1)`.
    W,
    /// Pan by `(1, -1)`.
    A,
    /// Pan by `(-1, -1)`.
    S,
    /// Pan by `(-1, 1)`.
    D,
    /// Any other key.
    Other,
}

#[derive(Clone, Copy, Debug, PartialEq, Eq, Structural)]
pub enum InputEvent {
    /// The window was closed.
    Quit,
    KeyDown(Key),
    /// The pointer moved to the pixel `(x, y)`.
    MouseMotion { x: i32, y: i32 },
    /// Anything else.
    Other,
}

/// Map, viewport, and what has been drawn: all that an event can change.
pub struct Scene {
    pub tiles: Seq<Tile>,
    pub view: ViewportState,
    pub calls: Seq<DrawCall>,
}

/// The event ends the session.
pub open spec fn is_quit(event: InputEvent) -> bool {
    event == InputEvent::Quit || event == InputEvent::KeyDown(Key::Escape)
}

/// The pan that a key asks for, if it asks for one.
pub open spec fn pan_of(event: InputEvent) -> Option<(int, int)> {
    match event {
        InputEvent::KeyDown(Key::W) => Some((1int, 1int)),
        InputEvent::KeyDown(Key::A) => Some((1int, -1int)),
        InputEvent::KeyDown(Key::S) => Some((-1int, -1int)),
        InputEvent::KeyDown(Key::D) => Some((-1int, 1int)),
        _ => None,
    }
}

/// The scene after the zoom level went to `scale`: redrawn, if it changed.
pub open spec fn after_zoom(scene: Scene, scale: int, viewport_width: int) -> Scene {
    if scale != scene.view.tile_scale {
        Scene {
            tiles: scene.tiles,
            view: ViewportState { tile_scale: scale as i32, ..scene.view },
            calls: scene.calls + redraw(scene.tiles, scale, viewport_width),
        }
    } else {
        scene
    }
}

/// The scene after a pan: every tile and the offset moved alike, and all
/// redrawn.
pub open spec fn after_pan(scene: Scene, dx: int, dy: int, viewport_width: int) -> Scene {
    let tiles = shifted(scene.tiles, dx, dy);
    Scene {
        tiles,
        view: scene.view.panned(dx, dy),
        calls: scene.calls + redraw(tiles, scene.view.tile_scale as int, viewport_width),
    }
}

/// The cell under the pixel `(px, py)`.
pub open spec fn hover_cell(px: int, py: int, window_width: int, tile_scale: int) -> (i32, i32) {
    (
        clamp_i32(iso_x(px, py, window_width, tile_scale)) as i32,
        clamp_i32(iso_y(px, py, window_width, tile_scale)) as i32,
    )
}

/// What drawing an outline on `cell` puts on the canvas. Nothing, unless the
/// cell lies on the map and holds a passable tile whose outline is not
/// hidden.
pub open spec fn cell_outline(
    tiles: Seq<Tile>,
    view: ViewportState,
    cell: (i32, i32),
    map_size: int,
    viewport_width: int,
    sprite: Rect,
) -> Seq<DrawCall> {
    if view.covers(cell, map_size) {
        match first_passable(tiles, cell.0 as int, cell.1 as int) {
            Some(i) => outline_calls(
                tiles[i],
                tiles,
                view.tile_scale as int,
                viewport_width,
                sprite,
            ),
            None => Seq::empty(),
        }
    } else {
        Seq::empty()
    }
}

/// What is drawn over the cell that the pointer has left.
pub open spec fn leave_outline(
    tiles: Seq<Tile>,
    view: ViewportState,
    map_size: int,
    viewport_width: int,
) -> Seq<DrawCall> {
    match view.prev_hover {
        Some(prev) => cell_outline(tiles, view, prev, map_size, viewport_width, leave_sprite()),
        None => Seq::empty(),
    }
}

/// The scene after the pointer moved to the pixel `(px, py)`. Where the cell
/// under it is the one hovered before, or the zoom level is too small for
/// outlines, nothing happens. Else the old outline is drawn over, the new
/// one drawn, and the cell remembered.
pub open spec fn after_hover(
    scene: Scene,
    px: int,
    py: int,
    map_size: int,
    viewport_width: int,
    window_width: int,
) -> Scene {
    let cell = hover_cell(px, py, window_width, scene.view.tile_scale as int);
    if scene.view.prev_hover != Some(cell) && scene.view.tile_scale >= HOVER_MIN_SCALE {
        Scene {
            tiles: scene.tiles,
            view: ViewportState { prev_hover: Some(cell), ..scene.view },
            calls: scene.calls + leave_outline(scene.tiles, scene.view, map_size, viewport_width)
                + cell_outline(
                scene.tiles,
                scene.view,
                cell,
                map_size,
                viewport_width,
                hover_sprite(),
            ) + seq![DrawCall::Present],
        }
    } else {
        scene
    }
}

/// The scene after one event. Quitting changes nothing.
pub open spec fn after_event(
    scene: Scene,
    event: InputEvent,
    map_size: int,
    viewport_width: int,
    window_width: int,
) -> Scene {
    match event {
        InputEvent::KeyDown(Key::I) => after_zoom(
            scene,
            zoomed_in(scene.view.tile_scale as int),
            viewport_width,
        ),
        InputEvent::KeyDown(Key::O) => after_zoom(
            scene,
            zoomed_out(scene.view.tile_scale as int),
            viewport_width,
        ),
        InputEvent::KeyDown(Key::W) => after_pan(scene, 1, 1, viewport_width),
        InputEvent::KeyDown(Key::A) => after_pan(scene, 1, -1, viewport_width),
        InputEvent::KeyDown(Key::S) => after_pan(scene, -1, -1, viewport_width),
        InputEvent::KeyDown(Key::D) => after_pan(scene, -1, 1, viewport_width),
        InputEvent::MouseMotion { x, y } => after_hover(
            scene,
            x as int,
            y as int,
            map_size,
            viewport_width,
            window_width,
        ),
        _ => scene,
    }
}

/// The scene after the events, in order, up to the first that quits.
pub open spec fn after_events(
    scene: Scene,
    events: Seq<InputEvent>,
    map_size: int,
    viewport_width: int,
    window_width: int,
) -> Scene
    decreases events.len(),
{
    if events.len() == 0 || is_quit(events[0]) {
        scene
    } else {
        after_events(
            after_event(scene, events[0], map_size, viewport_width, window_width),
            events.skip(1),
            map_size,
            viewport_width,
            window_width,
        )
    }
}

/// Number of pans among the events, up to the first that quits.
pub open spec fn pans_in(events: Seq<InputEvent>) -> int
    decreases events.len(),
{
    if events.len() == 0 || is_quit(events[0]) {
        0
    } else {
        pans_in(events.skip(1)) + if pan_of(events[0]) is Some {
            1int
        } else {
            0int
        }
    }
}

/// The scene can take `pans` more pans: the zoom level is in its range, the
/// widths fit `i32`, and every tile and the offset stay within the limit
/// however the pans go.
pub open spec fn has_room(
    tiles: Seq<Tile>,
    view: ViewportState,
    viewport_width: int,
    window_width: int,
    pans: int,
) -> bool {
    &&& 0 <= pans
    &&& view.wf()
    &&& 0 <= viewport_width <= i32::MAX
    &&& 0 <= window_width <= i32::MAX
    &&& tiles_within(tiles, COORD_LIMIT - pans)
    &&& within(view.x_offset as int, COORD_LIMIT - pans)
    &&& within(view.y_offset as int, COORD_LIMIT - pans)
}

/// Draws an outline on `cell` from the sprite region `sprite`, if the cell
/// lies on the map and holds a passable tile.
pub fn outline_cell(
    map: &Vec<Tile>,
    state: &ViewportState,
    canvas: &mut Canvas,
    cell: (i32, i32),
    map_size: i32,
    sprite: Rect,
)
    requires
        tiles_within(map@, COORD_LIMIT as int),
        0 <= state.tile_scale <= MAX_TILE_SCALE,
        old(canvas).viewport_width <= i32::MAX,
        sprite.x + sprite.w / 2 <= i32::MAX,
    ensures
        final(canvas).viewport_width == old(canvas).viewport_width,
        final(canvas).calls@ == old(canvas).calls@ + cell_outline(
            map@,
            *state,
            cell,
            map_size as int,
            old(canvas).viewport_width as int,
            sprite,
        ),
{
    if state.in_bounds(cell, map_size) {
        match find_passable(map, cell.0, cell.1) {
            Some(i) => {
                let mut region = sprite;
                proof {
                    lemma_tile_fits(
                        map@[i as int],
                        state.tile_scale as int,
                        canvas.viewport_width as int,
                    );
                }
                map[i].render_outline(canvas, state.tile_scale, &mut region, map);
                return ;
            },
            None => {},
        }
    }
    assert(canvas.calls@ + Seq::<DrawCall>::empty() =~= canvas.calls@);
}

/// Pans the map and the viewport by `(dx, dy)` and redraws everything.
pub fn pan(map: &mut Vec<Tile>, state: &mut ViewportState, canvas: &mut Canvas, dx: i32, dy: i32)
    requires
        can_shift(old(map)@, dx as int, dy as int),
        within(old(state).x_offset + dx, COORD_LIMIT as int),
        within(old(state).y_offset + dy, COORD_LIMIT as int),
        0 <= old(state).tile_scale <= MAX_TILE_SCALE,
        old(canvas).viewport_width <= i32::MAX,
    ensures
        final(canvas).viewport_width == old(canvas).viewport_width,
        final(map)@ == shifted(old(map)@, dx as int, dy as int),
        *final(state) == old(state).panned(dx as int, dy as int),
        final(canvas).calls@ == old(canvas).calls@ + redraw(
            final(map)@,
            old(state).tile_scale as int,
            old(canvas).viewport_width as int,
        ),
        tiles_within(final(map)@, COORD_LIMIT as int),
{
    pan_tiles(map, dx, dy);
    state.pan(dx, dy);
    redraw_all(map, state, canvas);
}

/// Reacts to the pointer moving to the pixel `(x, y)`.
pub fn hover(
    map: &Vec<Tile>,
    state: &mut ViewportState,
    canvas: &mut Canvas,
    x: i32,
    y: i32,
    map_size: i32,
    window_width: u32,
)
    requires
        has_room(
            map@,
            *old(state),
            old(canvas).viewport_width as int,
            window_width as int,
            0,
        ),
    ensures
        final(canvas).viewport_width == old(canvas).viewport_width,
        ({
            let after = after_hover(
                Scene { tiles: map@, view: *old(state), calls: old(canvas).calls@ },
                x as int,
                y as int,
                map_size as int,
                old(canvas).viewport_width as int,
                window_width as int,
            );
            *final(state) == after.view && final(canvas).calls@ == after.calls
        }),
{
    let cell = pixel_to_iso(x, y, window_width as i32, state.tile_scale);
    let moved = match state.prev_hover {
        Some(prev) => prev.0 != cell.0 || prev.1 != cell.1,
        None => true,
    };
    if moved && state.tile_scale >= HOVER_MIN_SCALE {
        let ghost before = canvas.calls@;
        let ghost width = canvas.viewport_width as int;
        match state.prev_hover {
            Some(prev) => {
                outline_cell(map, state, canvas, prev, map_size, leave_outline_sprite());
            },
            None => {
                assert(canvas.calls@ + Seq::<DrawCall>::empty() =~= canvas.calls@);
            },
        }
        let ghost left = leave_outline(map@, *state, map_size as int, width);
        assert(canvas.calls@ == before + left);
        outline_cell(map, state, canvas, cell, map_size, hover_outline_sprite());
        let ghost entered = cell_outline(
            map@,
            *state,
            cell,
            map_size as int,
            width,
            hover_sprite(),
        );
        state.prev_hover = Some(cell);
        canvas.present();
        assert(canvas.calls@ =~= before + left + entered + seq![DrawCall::Present]);
    }
}

/// Applies one event to the map, the viewport and the canvas, and says
/// whether the session goes on.
pub fn handle_event(
    event: InputEvent,
    map: &mut Vec<Tile>,
    state: &mut ViewportState,
    canvas: &mut Canvas,
    map_size: i32,
    window_width: u32,
) -> (keep_running: bool)
    requires
        has_room(
            old(map)@,
            *old(state),
            old(canvas).viewport_width as int,
            window_width as int,
            if pan_of(event) is Some {
                1
            } else {
                0
            },
        ),
    ensures
        keep_running == !is_quit(event),
        final(canvas).viewport_width == old(canvas).viewport_width,
        ({
            let after = after_event(
                Scene { tiles: old(map)@, view: *old(state), calls: old(canvas).calls@ },
                event,
                map_size as int,
                old(canvas).viewport_width as int,
                window_width as int,
            );
            &&& final(map)@ == after.tiles
            &&& *final(state) == after.view
            &&& final(canvas).calls@ == after.calls
        }),
{
    match event {
        InputEvent::Quit => false,
        InputEvent::KeyDown(key) => {
            match key {
                Key::Escape => false,
                Key::I => {
                    if state.zoom_in() {
                        redraw_all(map, state, canvas);
                    }
                    true
                },
                Key::O => {
                    if state.zoom_out() {
                        redraw_all(map, state, canvas);
                    }
                    true
                },
                Key::W => {
                    pan(map, state, canvas, 1, 1);
                    true
                },
                Key::A => {
                    pan(map, state, canvas, 1, -1);
                    true
                },
                Key::S => {
                    pan(map, state, canvas, -1, -1);
                    true
                },
                Key::D => {
                    pan(map, state, canvas, -1, 1);
                    true
                },
                Key::Other => true,
            }
        },
        InputEvent::MouseMotion { x, y } => {
            hover(map, state, canvas, x, y, map_size, window_width);
            true
        },
        InputEvent::Other => true,
    }
}

/// An event leaves the scene within its limits, with as much room for
/// pans as before, less the one it made.
pub proof fn lemma_room_after_event(
    scene: Scene,
    event: InputEvent,
    map_size: int,
    viewport_width: int,
    window_width: int,
    pans: int,
)
    requires
        has_room(scene.tiles, scene.view, viewport_width, window_width, pans),
        pan_of(event) is Some ==> pans >= 1,
    ensures
        ({
            let after = after_event(scene, event, map_size, viewport_width, window_width);
            has_room(
                after.tiles,
                after.view,
                viewport_width,
                window_width,
                if pan_of(event) is Some {
                    pans - 1
                } else {
                    pans
                },
            )
        }),
{
    match pan_of(event) {
        Some((dx, dy)) => {
            let after = after_event(scene, event, map_size, viewport_width, window_width);
            assert(after == after_pan(scene, dx, dy, viewport_width));
            assert forall|i: int| 0 <= i < after.tiles.len() implies within(
                (#[trigger] after.tiles[i]).x as int,
                COORD_LIMIT - (pans - 1),
            ) && within(after.tiles[i].y as int, COORD_LIMIT - (pans - 1)) by {
                assert(within(scene.tiles[i].x as int, COORD_LIMIT - pans));
            }
        },
        None => {},
    }
}

/// There are no more pans than events.
pub proof fn lemma_pans_in_bounds(events: Seq<InputEvent>)
    ensures
        0 <= pans_in(events) <= events.len(),
    decreases events.len(),
{
    if events.len() != 0 && !is_quit(events[0]) {
        lemma_pans_in_bounds(events.skip(1));
    }
}

/// Counts the pans among the events, up to the first that quits.
pub fn count_pans(events: &Vec<InputEvent>) -> (count: usize)
    ensures
        count == pans_in(events@),
{
    let mut count: usize = 0;
    let mut i: usize = 0;
    proof {
        assert(events@.skip(0) =~= events@);
    }
    while i < events.len()
        invariant
            i <= events.len(),
            count <= i,
            pans_in(events@) == count + pans_in(events@.skip(i as int)),
        ensures
            count == pans_in(events@),
        decreases events.len() - i,
    {
        let ghost rest = events@.skip(i as int);
        proof {
            assert(rest[0] == events@[i as int]);
            assert(rest.skip(1) =~= events@.skip(i + 1));
        }
        match events[i] {
            InputEvent::Quit => {
                break ;
            },
            InputEvent::KeyDown(key) => {
                match key {
                    Key::Escape => {
                        break ;
                    },
                    Key::W | Key::A | Key::S | Key::D => {
                        count += 1;
                    },
                    _ => {},
                }
            },
            _ => {},
        }
        i += 1;
    }
    count
}

/// Whether every tile lies within `bound` of the origin on both axes.
pub fn tiles_fit(map: &Vec<Tile>, bound: i32) -> (fit: bool)
    ensures
        fit == tiles_within(map@, bound as int),
{
    let mut i: usize = 0;
    while i < map.len()
        invariant
            i <= map.len(),
            forall|j: int|
                0 <= j < i ==> within((#[trigger] map@[j]).x as int, bound as int) && within(
                    map@[j].y as int,
                    bound as int,
                ),
        decreases map.len() - i,
    {
        let t = &map[i];
        let b = bound as i64;
        if !(-b <= t.x as i64 && t.x as i64 <= b && -b <= t.y as i64 && t.y as i64 <= b) {
            return false;
        }
        i += 1;
    }
    true
}

/// Whether the frame can be handled: whether map and viewport have room for
/// the pans that the events ask for.
pub fn can_handle(
    events: &Vec<InputEvent>,
    map: &Vec<Tile>,
    state: &ViewportState,
    canvas: &Canvas,
    window_width: u32,
) -> (ok: bool)
    ensures
        ok == has_room(
            map@,
            *state,
            canvas.viewport_width as int,
            window_width as int,
            pans_in(events@),
        ),
{
    let pans = count_pans(events);
    if pans > COORD_LIMIT as usize {
        return false;
    }
    let bound: i32 = COORD_LIMIT - pans as i32;
    state.tile_scale >= MIN_TILE_SCALE && state.tile_scale <= MAX_TILE_SCALE
        && canvas.viewport_width <= i32::MAX as u32 && window_width <= i32::MAX as u32
        && -bound <= state.x_offset && state.x_offset <= bound && -bound <= state.y_offset
        && state.y_offset <= bound && tiles_fit(map, bound)
}

/// Applies the events of one frame, in order, and says whether the session
/// goes on. It does not after an event that quits, and what follows that
/// event is left alone.
///
/// Map and viewport must have room for the pans among the events; room for as
/// many pans as there are events is enough, and easier to show.
pub fn handle_controls(
    events: &Vec<InputEvent>,
    map: &mut Vec<Tile>,
    state: &mut ViewportState,
    canvas: &mut Canvas,
    map_size: i32,
    window_width: u32,
) -> (keep_running: bool)
    requires
        has_room(
            old(map)@,
            *old(state),
            old(canvas).viewport_width as int,
            window_width as int,
            pans_in(events@),
        ) || has_room(
            old(map)@,
            *old(state),
            old(canvas).viewport_width as int,
            window_width as int,
            events@.len() as int,
        ),
    ensures
        keep_running == (forall|i: int| 0 <= i < events@.len() ==> !is_quit(#[trigger] events@[i])),
        final(canvas).viewport_width == old(canvas).viewport_width,
        ({
            let after = after_events(
                Scene { tiles: old(map)@, view: *old(state), calls: old(canvas).calls@ },
                events@,
                map_size as int,
                old(canvas).viewport_width as int,
                window_width as int,
            );
            &&& final(map)@ == after.tiles
            &&& *final(state) == after.view
            &&& final(canvas).calls@ == after.calls
        }),
        has_room(
            final(map)@,
            *final(state),
            old(canvas).viewport_width as int,
            window_width as int,
            0,
        ),
{
    let ghost width = canvas.viewport_width as int;
    let ghost start = Scene { tiles: map@, view: *state, calls: canvas.calls@ };
    let mut i: usize = 0;
    proof {
        assert(events@.skip(0) =~= events@);
        lemma_pans_in_bounds(events@);
    }
    while i < events.len()
        invariant
            i <= events.len(),
            width == old(canvas).viewport_width,
            start == (Scene { tiles: old(map)@, view: *old(state), calls: old(canvas).calls@ }),
            canvas.viewport_width == width,
            forall|j: int| 0 <= j < i ==> !is_quit(#[trigger] events@[j]),
            pans_in(events@.skip(i as int)) >= 0,
            has_room(map@, *state, width, window_width as int, pans_in(events@.skip(i as int))),
            after_events(
                Scene { tiles: map@, view: *state, calls: canvas.calls@ },
                events@.skip(i as int),
                map_size as int,
                width,
                window_width as int,
            ) == after_events(start, events@, map_size as int, width, window_width as int),
        decreases events.len() - i,
    {
        let event = events[i];
        let ghost rest = events@.skip(i as int);
        let ghost scene = Scene { tiles: map@, view: *state, calls: canvas.calls@ };
        proof {
            assert(rest[0] == event);
            assert(rest.skip(1) =~= events@.skip(i + 1));
            lemma_pans_in_bounds(events@.skip(i + 1));
            if !is_quit(event) {
                lemma_room_after_event(
                    scene,
                    event,
                    map_size as int,
                    width,
                    window_width as int,
                    pans_in(rest),
                );
            }
        }
        if !handle_event(event, map, state, canvas, map_size, window_width) {
            return false;
        }
        i += 1;
    }
    true
}

/// A pan and the opposite pan after it leave every tile and the offset
/// where they were.
pub proof fn lemma_opposite_pans_cancel(
    scene: Scene,
    first: InputEvent,
    second: InputEvent,
    map_size: int,
    viewport_width: int,
    window_width: int,
)
    requires
        has_room(scene.tiles, scene.view, viewport_width, window_width, 1),
        pan_of(first) matches Some(there) && pan_of(second) == Some((-there.0, -there.1)),
    ensures
        ({
            let there = after_event(scene, first, map_size, viewport_width, window_width);
            let back = after_event(there, second, map_size, viewport_width, window_width);
            back.tiles == scene.tiles && back.view == scene.view
        }),
{
    let (dx, dy) = pan_of(first)->0;
    let there = after_event(scene, first, map_size, viewport_width, window_width);
    let back = after_event(there, second, map_size, viewport_width, window_width);
    assert(there == after_pan(scene, dx, dy, viewport_width));
    assert(back == after_pan(there, -dx, -dy, viewport_width));
    assert(can_shift(scene.tiles, dx, dy)) by {
        assert forall|i: int| 0 <= i < scene.tiles.len() implies within(
            (#[trigger] scene.tiles[i]).x + dx,
            COORD_LIMIT as int,
        ) && within(scene.tiles[i].y + dy, COORD_LIMIT as int) by {
            assert(within(scene.tiles[i].x as int, COORD_LIMIT - 1));
        }
    }
    lemma_shift_back(scene.tiles, dx, dy);
    lemma_pan_back(scene.view, dx, dy);
}

/// The map and the offset move in lockstep: tiles that cover the square at
/// the offset before an event cover the square at the offset after it.
pub proof fn lemma_event_keeps_grid(
    scene: Scene,
    event: InputEvent,
    map_size: int,
    viewport_width: int,
    window_width: int,
    size: int,
)
    requires
        on_grid(scene.tiles, size, scene.view.x_offset as int, scene.view.y_offset as int),
        has_room(
            scene.tiles,
            scene.view,
            viewport_width,
            window_width,
            if pan_of(event) is Some {
                1
            } else {
                0
            },
        ),
    ensures
        ({
            let after = after_event(scene, event, map_size, viewport_width, window_width);
            on_grid(after.tiles, size, after.view.x_offset as int, after.view.y_offset as int)
        }),
{
    match pan_of(event) {
        Some((dx, dy)) => {
            let after = after_event(scene, event, map_size, viewport_width, window_width);
            assert(after == after_pan(scene, dx, dy, viewport_width));
            assert forall|i: int| 0 <= i < after.tiles.len() implies (#[trigger] after.tiles[i]).x
                == i % size + after.view.x_offset && after.tiles[i].y == i / size
                + after.view.y_offset by {
                assert(within(scene.tiles[i].x as int, COORD_LIMIT - 1));
                assert(within(scene.tiles[i].y as int, COORD_LIMIT - 1));
            }
        },
        None => {},
    }
}

/// A cell off the map gets no outline: nothing is looked up and nothing is
/// drawn for it.
pub proof fn lemma_no_outline_off_map(
    tiles: Seq<Tile>,
    view: ViewportState,
    cell: (i32, i32),
    map_size: int,
    viewport_width: int,
    sprite: Rect,
)
    requires
        !view.covers(cell, map_size),
    ensures
        cell_outline(tiles, view, cell, map_size, viewport_width, sprite) == Seq::<
            DrawCall,
        >::empty(),
{
}

/// Where the pointer comes to a cell off the map, and no cell on the map was
/// hovered before, the canvas is presented at most and nothing is drawn.
pub proof fn lemma_hover_off_map(
    scene: Scene,
    px: int,
    py: int,
    map_size: int,
    viewport_width: int,
    window_width: int,
)
    requires
        !scene.view.covers(
            hover_cell(px, py, window_width, scene.view.tile_scale as int),
            map_size,
        ),
        match scene.view.prev_hover {
            Some(prev) => !scene.view.covers(prev, map_size),
            None => true,
        },
    ensures
        ({
            let after = after_hover(scene, px, py, map_size, viewport_width, window_width);
            after.calls == scene.calls || after.calls == scene.calls.push(DrawCall::Present)
        }),
{
    let after = after_hover(scene, px, py, map_size, viewport_width, window_width);
    let cell = hover_cell(px, py, window_width, scene.view.tile_scale as int);
    if scene.view.prev_hover != Some(cell) && scene.view.tile_scale >= HOVER_MIN_SCALE {
        assert(after.calls =~= scene.calls.push(DrawCall::Present));
    }
}

} // verus!
