use isogrid::projection::{grid_to_screen, pixel_to_iso};

#[test]
fn origin_is_left_of_centre() {
    assert_eq!(grid_to_screen(0, 0, 20, 800), (380, 0));
}

#[test]
fn forward_projection_follows_the_formula() {
    // ((3 - 1) * 10 + 400 - 10, (3 + 1) * 10 / 2)
    assert_eq!(grid_to_screen(3, 1, 10, 800), (410, 20));
    // ((2 - 5) * 7 + 400 - 7, 49 / 2), the odd pixel of the width dropped
    assert_eq!(grid_to_screen(2, 5, 7, 801), (372, 24));
    assert_eq!(grid_to_screen(10, 10, 60, 800), (340, 600));
}

#[test]
fn forward_projection_halves_toward_zero() {
    // (-1 + 0) * 3 / 2 is -1, not -2
    assert_eq!(grid_to_screen(-1, 0, 3, 800), (394, -1));
    assert_eq!(grid_to_screen(0, 1, 3, 800), (394, 1));
}

#[test]
fn forward_projection_at_the_edge_of_the_range() {
    // (x - y) * scale + width / 2 - scale == i32::MAX
    assert_eq!(grid_to_screen(i32::MAX, 0, 1, 2), (i32::MAX, 1_073_741_823));
    assert_eq!(grid_to_screen(0, 0, 1, i32::MAX), (1_073_741_822, 0));
}

#[test]
fn inverse_projection_follows_the_formula() {
    // ((400 - 400) / 20 + 600 / 20) / 2 = 15, (600 / 20 - 0) / 2 = 15
    assert_eq!(pixel_to_iso(400, 300, 800, 20), (15, 15));
    assert_eq!(pixel_to_iso(0, 0, 800, 20), (-10, 10));
    assert_eq!(pixel_to_iso(400, 10, 800, 10), (1, 1));
    assert_eq!(pixel_to_iso(400, 0, 800, 10), (0, 0));
    assert_eq!(pixel_to_iso(410, 5, 800, 10), (1, 0));
}

#[test]
fn inverse_projection_rounds_to_nearest() {
    // -9.75 and 9.75
    assert_eq!(pixel_to_iso(10, 0, 800, 20), (-10, 10));
    // -9.475 and 9.475
    assert_eq!(pixel_to_iso(21, 0, 800, 20), (-9, 9));
    // an odd width: -20.025 and 20.025
    assert_eq!(pixel_to_iso(0, 0, 801, 10), (-20, 20));
}

#[test]
fn inverse_projection_rounds_a_half_away_from_zero() {
    // -9.5 and 9.5
    assert_eq!(pixel_to_iso(20, 0, 800, 20), (-10, 10));
    // -0.5 and 0.5
    assert_eq!(pixel_to_iso(380, 0, 800, 20), (-1, 1));
    // 0.5 and -0.5
    assert_eq!(pixel_to_iso(420, 0, 800, 20), (1, -1));
}

#[test]
fn inverse_projection_stops_at_the_ends_of_the_range() {
    assert_eq!(pixel_to_iso(i32::MAX, i32::MAX, i32::MIN, 1), (i32::MAX, 536_870_912));
    assert_eq!(pixel_to_iso(i32::MIN, i32::MIN, i32::MAX, 1), (i32::MIN, -536_870_912));
}

#[test]
fn round_trip_is_exact_right_of_and_above_the_origin() {
    for scale in [8, 9, 10, 20, 33, 60] {
        for x in 1..25 {
            for y in -25..0 {
                if ((x + y) * scale) % 2 != 0 {
                    continue;
                }
                let (px, py) = grid_to_screen(x, y, scale, 800);
                assert_eq!(pixel_to_iso(px, py, 800, scale), (x, y));
            }
        }
    }
}

#[test]
fn round_trip_lands_on_the_cell_or_its_neighbour() {
    for width in [800, 801] {
        for scale in [3, 8, 9, 10, 60] {
            for x in -12..12 {
                for y in -12..12 {
                    let (px, py) = grid_to_screen(x, y, scale, width);
                    let (column, row) = pixel_to_iso(px, py, width, scale);
                    assert!(column == x || column == x - 1);
                    assert!(row == y || row == y + 1);
                    let exact = width % 2 == 0 && ((x + y) * scale) % 2 == 0 && x >= 1 && y <= -1;
                    assert_eq!((column, row) == (x, y), exact);
                }
            }
        }
    }
}

#[test]
fn round_trip_of_a_map_cell_lands_one_row_down() {
    let (px, py) = grid_to_screen(3, 2, 10, 800);
    assert_eq!(pixel_to_iso(px, py, 800, 10), (3, 3));
    let (px, py) = grid_to_screen(0, 0, 10, 800);
    assert_eq!(pixel_to_iso(px, py, 800, 10), (-1, 1));
}
