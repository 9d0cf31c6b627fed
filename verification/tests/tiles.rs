use isogrid::canvas::{Canvas, DrawCall, Rect};
use isogrid::outline::{has_coal_at, resolve_outline, OutlineShape};
use isogrid::tile::{hover_outline_sprite, leave_outline_sprite, terrain_sprite, Terrain, Tile};

fn tile(x: i32, y: i32, terrain: Terrain) -> Tile {
    Tile { x, y, terrain }
}

fn rect(x: i32, y: i32, w: u32, h: u32) -> Rect {
    Rect { x, y, w, h }
}

#[test]
fn move_tiles_shifts_both_coordinates() {
    let mut t = tile(1, 2, Terrain::Grass);
    t.move_tiles(1, -1);
    assert_eq!(t, tile(2, 1, Terrain::Grass));
    t.move_tiles(-5, 7);
    assert_eq!(t, tile(-3, 8, Terrain::Grass));
}

#[test]
fn move_tiles_keeps_the_terrain() {
    let mut t = tile(0, 0, Terrain::Coal);
    t.move_tiles(1, 1);
    assert_eq!(t.terrain, Terrain::Coal);
}

#[test]
fn sprites_are_where_the_sheet_has_them() {
    assert_eq!(terrain_sprite(Terrain::Grass), rect(32, 16, 16, 16));
    assert_eq!(terrain_sprite(Terrain::Flowers), rect(16, 16, 16, 16));
    assert_eq!(terrain_sprite(Terrain::Coal), rect(48, 8, 16, 24));
    assert_eq!(hover_outline_sprite(), rect(0, 16, 16, 8));
    assert_eq!(leave_outline_sprite(), rect(0, 24, 16, 8));
}

#[test]
fn render_draws_grass_two_scales_square() {
    let mut canvas = Canvas::new(800);
    tile(0, 0, Terrain::Grass).render(&mut canvas, 20);
    assert_eq!(
        canvas.calls,
        vec![DrawCall::Blit { src: rect(32, 16, 16, 16), dst: rect(380, 0, 40, 40) }]
    );
}

#[test]
fn render_draws_flowers_like_grass_from_another_sprite() {
    let mut canvas = Canvas::new(800);
    tile(3, 1, Terrain::Flowers).render(&mut canvas, 10);
    assert_eq!(
        canvas.calls,
        vec![DrawCall::Blit { src: rect(16, 16, 16, 16), dst: rect(410, 20, 20, 20) }]
    );
}

#[test]
fn render_draws_coal_taller_and_raised() {
    let mut canvas = Canvas::new(800);
    tile(0, 0, Terrain::Coal).render(&mut canvas, 20);
    assert_eq!(
        canvas.calls,
        vec![DrawCall::Blit { src: rect(48, 8, 16, 24), dst: rect(380, -20, 40, 60) }]
    );
}

#[test]
fn render_appends_to_what_was_drawn() {
    let mut canvas = Canvas::new(800);
    canvas.clear();
    tile(0, 0, Terrain::Grass).render(&mut canvas, 20);
    canvas.present();
    assert_eq!(canvas.calls.len(), 3);
    assert_eq!(canvas.calls[0], DrawCall::Clear);
    assert_eq!(canvas.calls[2], DrawCall::Present);
    let taken = canvas.take_calls();
    assert_eq!(taken.len(), 3);
    assert!(canvas.calls.is_empty());
    assert_eq!(canvas.viewport_width, 800);
}

#[test]
fn has_coal_at_finds_only_coal_on_the_cell() {
    let map = vec![tile(0, 0, Terrain::Grass), tile(1, 0, Terrain::Coal)];
    assert!(has_coal_at(&map, 1, 0));
    assert!(!has_coal_at(&map, 0, 0));
    assert!(!has_coal_at(&map, 0, 1));
    assert!(!has_coal_at(&map, 2_147_483_648, 0));
}

#[test]
fn outline_is_full_without_coal_around() {
    let me = tile(1, 1, Terrain::Grass);
    let map = vec![
        me,
        tile(2, 1, Terrain::Grass),
        tile(1, 2, Terrain::Flowers),
        tile(2, 2, Terrain::Grass),
        tile(0, 1, Terrain::Coal),
        tile(1, 0, Terrain::Coal),
    ];
    assert_eq!(resolve_outline(&me, &map), OutlineShape::Full);
    assert_eq!(resolve_outline(&me, &vec![]), OutlineShape::Full);
}

#[test]
fn outline_decision_table() {
    let me = tile(1, 1, Terrain::Grass);
    let right = tile(2, 1, Terrain::Coal);
    let below = tile(1, 2, Terrain::Coal);
    let right_below = tile(2, 2, Terrain::Coal);
    assert_eq!(resolve_outline(&me, &vec![me]), OutlineShape::Full);
    assert_eq!(resolve_outline(&me, &vec![me, right]), OutlineShape::LeftHalf);
    assert_eq!(resolve_outline(&me, &vec![me, below]), OutlineShape::RightHalf);
    assert_eq!(resolve_outline(&me, &vec![me, right_below]), OutlineShape::Hidden);
    assert_eq!(resolve_outline(&me, &vec![me, right, below]), OutlineShape::Hidden);
    assert_eq!(resolve_outline(&me, &vec![me, right, right_below]), OutlineShape::Hidden);
    assert_eq!(resolve_outline(&me, &vec![me, below, right_below]), OutlineShape::Hidden);
    assert_eq!(resolve_outline(&me, &vec![me, right, below, right_below]), OutlineShape::Hidden);
}

#[test]
fn outline_at_the_end_of_the_range_sees_no_neighbours() {
    let me = tile(i32::MAX, i32::MAX, Terrain::Grass);
    let map = vec![me, tile(i32::MIN, i32::MAX, Terrain::Coal)];
    assert_eq!(resolve_outline(&me, &map), OutlineShape::Full);
}

#[test]
fn render_outline_draws_the_whole_outline() {
    let me = tile(1, 1, Terrain::Grass);
    let map = vec![me];
    let mut canvas = Canvas::new(800);
    let mut sprite = hover_outline_sprite();
    me.render_outline(&mut canvas, 10, &mut sprite, &map);
    assert_eq!(
        canvas.calls,
        vec![DrawCall::Blit { src: rect(0, 16, 16, 8), dst: rect(390, 10, 20, 10) }]
    );
    assert_eq!(sprite, rect(0, 16, 16, 8));
}

#[test]
fn render_outline_keeps_the_left_half_beside_coal() {
    let me = tile(1, 1, Terrain::Grass);
    let map = vec![me, tile(2, 1, Terrain::Coal)];
    let mut canvas = Canvas::new(800);
    let mut sprite = hover_outline_sprite();
    me.render_outline(&mut canvas, 10, &mut sprite, &map);
    assert_eq!(
        canvas.calls,
        vec![DrawCall::Blit { src: rect(0, 16, 8, 8), dst: rect(390, 10, 10, 10) }]
    );
    assert_eq!(sprite, rect(0, 16, 8, 8));
}

#[test]
fn render_outline_keeps_the_right_half_above_coal() {
    let me = tile(1, 1, Terrain::Flowers);
    let map = vec![me, tile(1, 2, Terrain::Coal)];
    let mut canvas = Canvas::new(800);
    let mut sprite = leave_outline_sprite();
    me.render_outline(&mut canvas, 10, &mut sprite, &map);
    assert_eq!(
        canvas.calls,
        vec![DrawCall::Blit { src: rect(8, 24, 8, 8), dst: rect(400, 10, 10, 10) }]
    );
    assert_eq!(sprite, rect(8, 24, 8, 8));
}

#[test]
fn render_outline_draws_nothing_when_hidden() {
    let me = tile(1, 1, Terrain::Grass);
    let map = vec![me, tile(2, 1, Terrain::Coal), tile(1, 2, Terrain::Coal)];
    let mut canvas = Canvas::new(800);
    let mut sprite = hover_outline_sprite();
    me.render_outline(&mut canvas, 10, &mut sprite, &map);
    assert!(canvas.calls.is_empty());
    assert_eq!(sprite, hover_outline_sprite());

    let map = vec![me, tile(2, 2, Terrain::Coal)];
    me.render_outline(&mut canvas, 10, &mut sprite, &map);
    assert!(canvas.calls.is_empty());
}
