use isogrid::tile::{Terrain, Tile};
use isogrid::viewport::{
    pan_tiles, ViewportState, COORD_LIMIT, HOVER_MIN_SCALE, MAX_TILE_SCALE, MIN_TILE_SCALE,
};

#[test]
fn limits_are_as_documented() {
    assert_eq!(MIN_TILE_SCALE, 3);
    assert_eq!(MAX_TILE_SCALE, 60);
    assert_eq!(HOVER_MIN_SCALE, 8);
    assert_eq!(COORD_LIMIT, 8_388_608);
}

#[test]
fn new_viewport_is_unpanned() {
    let state = ViewportState::new(10);
    assert_eq!(
        state,
        ViewportState { tile_scale: 10, x_offset: 0, y_offset: 0, prev_hover: None }
    );
}

#[test]
fn new_viewport_clamps_the_scale() {
    assert_eq!(ViewportState::new(0).tile_scale, 3);
    assert_eq!(ViewportState::new(-7).tile_scale, 3);
    assert_eq!(ViewportState::new(3).tile_scale, 3);
    assert_eq!(ViewportState::new(60).tile_scale, 60);
    assert_eq!(ViewportState::new(61).tile_scale, 60);
    assert_eq!(ViewportState::new(i32::MAX).tile_scale, 60);
}

#[test]
fn zoom_in_steps_by_one() {
    let mut state = ViewportState::new(10);
    assert!(state.zoom_in());
    assert_eq!(state.tile_scale, 11);
    assert_eq!((state.x_offset, state.y_offset, state.prev_hover), (0, 0, None));
}

#[test]
fn zoom_out_steps_by_one() {
    let mut state = ViewportState::new(10);
    assert!(state.zoom_out());
    assert_eq!(state.tile_scale, 9);
}

#[test]
fn zoom_in_stops_at_the_ceiling() {
    let mut state = ViewportState::new(59);
    assert!(state.zoom_in());
    assert_eq!(state.tile_scale, 60);
    for _ in 0..100 {
        assert!(!state.zoom_in());
        assert_eq!(state.tile_scale, 60);
    }
}

#[test]
fn zoom_out_stops_at_the_floor() {
    let mut state = ViewportState::new(4);
    assert!(state.zoom_out());
    assert_eq!(state.tile_scale, 3);
    for _ in 0..100 {
        assert!(!state.zoom_out());
        assert_eq!(state.tile_scale, 3);
    }
}

#[test]
fn zoom_never_leaves_the_range() {
    let mut state = ViewportState::new(30);
    for step in 0..500 {
        if step % 7 < 5 {
            state.zoom_in();
        } else {
            state.zoom_out();
        }
        assert!(MIN_TILE_SCALE <= state.tile_scale && state.tile_scale <= MAX_TILE_SCALE);
    }
    for _ in 0..500 {
        state.zoom_out();
        assert!(MIN_TILE_SCALE <= state.tile_scale && state.tile_scale <= MAX_TILE_SCALE);
    }
}

#[test]
fn pan_adds_to_the_offset() {
    let mut state = ViewportState::new(10);
    state.pan(1, 1);
    state.pan(1, -1);
    assert_eq!((state.x_offset, state.y_offset), (2, 0));
    state.pan(-1, -1);
    state.pan(-1, 1);
    assert_eq!((state.x_offset, state.y_offset), (0, 0));
    assert_eq!(state.tile_scale, 10);
}

#[test]
fn bounds_follow_the_offset() {
    let mut state = ViewportState::new(10);
    assert!(state.in_bounds((0, 0), 5));
    assert!(state.in_bounds((4, 4), 5));
    assert!(!state.in_bounds((5, 0), 5));
    assert!(!state.in_bounds((0, 5), 5));
    assert!(!state.in_bounds((-1, 0), 5));
    assert!(!state.in_bounds((0, -1), 5));
    state.pan(-1, 1);
    assert!(state.in_bounds((-1, 1), 5));
    assert!(state.in_bounds((3, 5), 5));
    assert!(!state.in_bounds((4, 1), 5));
    assert!(!state.in_bounds((0, 0), 5));
}

#[test]
fn bounds_of_an_empty_or_huge_map() {
    let state = ViewportState { tile_scale: 10, x_offset: 1, y_offset: 1, prev_hover: None };
    assert!(!state.in_bounds((1, 1), 0));
    assert!(!state.in_bounds((1, 1), -3));
    assert!(state.in_bounds((i32::MAX, i32::MAX), i32::MAX));
    assert!(!state.in_bounds((0, 1), i32::MAX));
}

#[test]
fn pan_tiles_shifts_every_tile_alike() {
    let mut map = vec![
        Tile { x: 0, y: 0, terrain: Terrain::Grass },
        Tile { x: 1, y: 0, terrain: Terrain::Coal },
        Tile { x: -3, y: 8, terrain: Terrain::Flowers },
    ];
    pan_tiles(&mut map, 1, -1);
    assert_eq!(
        map,
        vec![
            Tile { x: 1, y: -1, terrain: Terrain::Grass },
            Tile { x: 2, y: -1, terrain: Terrain::Coal },
            Tile { x: -2, y: 7, terrain: Terrain::Flowers },
        ]
    );
}

#[test]
fn pan_tiles_there_and_back() {
    let before = vec![
        Tile { x: 0, y: 0, terrain: Terrain::Grass },
        Tile { x: COORD_LIMIT - 1, y: -COORD_LIMIT + 1, terrain: Terrain::Coal },
    ];
    let mut map = before.clone();
    pan_tiles(&mut map, 1, -1);
    assert_eq!(map[1], Tile { x: COORD_LIMIT, y: -COORD_LIMIT, terrain: Terrain::Coal });
    pan_tiles(&mut map, -1, 1);
    assert_eq!(map, before);
}
