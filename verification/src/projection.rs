//! The isometric projection: from grid cells to screen pixels and back.
//!
//! A cell `(x, y)` is drawn in a box whose top-left corner is
//! `((x - y) * scale + viewport_width / 2 - scale, (x + y) * scale / 2)`.
//! The inverse solves these equations for `x` and `y` and rounds each to the
//! nearest integer, a half going away from zero.

use vstd::arithmetic::div_mod::{lemma_fundamental_div_mod, lemma_fundamental_div_mod_converse};
use vstd::prelude::*;

verus! {

/// `v` is in the range of `i32`.
pub open spec fn fits_i32(v: int) -> bool {
    i32::MIN <= v <= i32::MAX
}

/// `v` brought into the range of `i32`.
pub open spec fn clamp_i32(v: int) -> int {
    if v < i32::MIN {
        i32::MIN as int
    } else if v > i32::MAX {
        i32::MAX as int
    } else {
        v
    }
}

/// Half of `a`, rounded toward zero.
pub open spec fn half_toward_zero(a: int) -> int {
    if a >= 0 {
        a / 2
    } else {
        -((-a) / 2)
    }
}

/// Horizontal pixel position of the box of cell `(x, y)`.
pub open spec fn screen_x(x: int, y: int, scale: int, viewport_width: int) -> int {
    (x - y) * scale + half_toward_zero(viewport_width) - scale
}

/// Vertical pixel position of the box of cell `(x, y)`.
pub open spec fn screen_y(x: int, y: int, scale: int) -> int {
    half_toward_zero((x + y) * scale)
}

/// The quotient `n / d` of the rationals, rounded to the nearest integer, a
/// half going away from zero.
pub open spec fn round_div(n: int, d: int) -> int
    recommends
        d > 0,
{
    if n >= 0 {
        (2 * n + d) / (2 * d)
    } else {
        -((2 * (-n) + d) / (2 * d))
    }
}

/// Grid column under the pixel `(px, py)`:
/// `((px - window_width / 2) / tile_scale + 2 * py / tile_scale) / 2`,
/// taken over the rationals and rounded.
pub open spec fn iso_x(px: int, py: int, window_width: int, tile_scale: int) -> int {
    round_div(2 * px - window_width + 4 * py, 4 * tile_scale)
}

/// Grid row under the pixel `(px, py)`:
/// `(2 * py / tile_scale - (px - window_width / 2) / tile_scale) / 2`,
/// taken over the rationals and rounded.
pub open spec fn iso_y(px: int, py: int, window_width: int, tile_scale: int) -> int {
    round_div(4 * py - 2 * px + window_width, 4 * tile_scale)
}

/// A product is bounded by the product of the bounds.
pub(crate) proof fn lemma_product_bound(a: int, b: int, la: int, lb: int)
    by (nonlinear_arith)
    requires
        -la <= a <= la,
        -lb <= b <= lb,
    ensures
        -(la * lb) <= a * b <= la * lb,
{
}

/// Forward projection in full width: no corner is out of its range.
pub(crate) fn project(x: i32, y: i32, scale: i32, viewport_width: i32) -> (p: (i128, i128))
    ensures
        p.0 == screen_x(x as int, y as int, scale as int, viewport_width as int),
        p.1 == screen_y(x as int, y as int, scale as int),
{
    let across: i64 = x as i64 - y as i64;
    let down: i64 = x as i64 + y as i64;
    proof {
        lemma_product_bound(across as int, scale as int, 0x1_0000_0000, 0x8000_0000);
        lemma_product_bound(down as int, scale as int, 0x1_0000_0000, 0x8000_0000);
    }
    let px: i128 = (across as i128) * (scale as i128) + (viewport_width / 2) as i128
        - scale as i128;
    let py: i128 = ((down as i128) * (scale as i128)) / 2;
    (px, py)
}

/// Forward projection of a grid cell to the top-left corner of its box.
pub fn grid_to_screen(x: i32, y: i32, scale: i32, viewport_width: i32) -> (p: (i32, i32))
    requires
        fits_i32(screen_x(x as int, y as int, scale as int, viewport_width as int)),
        fits_i32(screen_y(x as int, y as int, scale as int)),
    ensures
        p.0 == screen_x(x as int, y as int, scale as int, viewport_width as int),
        p.1 == screen_y(x as int, y as int, scale as int),
{
    let (px, py) = project(x, y, scale, viewport_width);
    (px as i32, py as i32)
}

/// `round_div(n, d)` brought into the range of `i32`.
fn round_div_clamped(n: i64, d: i64) -> (q: i32)
    requires
        0 < d <= 0x4_0000_0000,
        -0x10_0000_0000 <= n <= 0x10_0000_0000,
    ensures
        q == clamp_i32(round_div(n as int, d as int)),
{
    let magnitude: i64 = if n >= 0 {
        n
    } else {
        -n
    };
    let rounded: i64 = (2 * magnitude + d) / (2 * d);
    let signed: i64 = if n >= 0 {
        rounded
    } else {
        -rounded
    };
    if signed < i32::MIN as i64 {
        i32::MIN
    } else if signed > i32::MAX as i64 {
        i32::MAX
    } else {
        signed as i32
    }
}

/// Inverse projection, from the screen to the grid: the cell under the pixel
/// `(x, y)`. A cell beyond the range of `i32` is reported at the nearest end
/// of that range.
pub fn pixel_to_iso(x: i32, y: i32, window_width: i32, tile_scale: i32) -> (cell: (i32, i32))
    requires
        tile_scale > 0,
    ensures
        cell.0 == clamp_i32(iso_x(x as int, y as int, window_width as int, tile_scale as int)),
        cell.1 == clamp_i32(iso_y(x as int, y as int, window_width as int, tile_scale as int)),
{
    let across: i64 = 2 * (x as i64) - window_width as i64;
    let down: i64 = 4 * (y as i64);
    let d: i64 = 4 * (tile_scale as i64);
    (round_div_clamped(across + down, d), round_div_clamped(down - across, d))
}

/// `q` is `round_div(n, d)` if twice `n` lies within `d` of twice `q * d`,
/// with the end nearer to zero left out.
proof fn lemma_round_div_is(n: int, d: int, q: int)
    requires
        d > 0,
        n >= 0 ==> 2 * (q * d) <= 2 * n + d < 2 * (q * d) + 2 * d,
        n < 0 ==> -2 * (q * d) <= -2 * n + d < -2 * (q * d) + 2 * d,
    ensures
        round_div(n, d) == q,
{
    if n >= 0 {
        assert(q * (2 * d) == 2 * (q * d)) by (nonlinear_arith);
        lemma_fundamental_div_mod_converse(2 * n + d, 2 * d, q, 2 * n + d - 2 * (q * d));
    } else {
        assert((-q) * (2 * d) == -2 * (q * d)) by (nonlinear_arith);
        lemma_fundamental_div_mod_converse(
            2 * (-n) + d,
            2 * d,
            -q,
            2 * (-n) + d + 2 * (q * d),
        );
    }
}

/// `round_div(n, d)` is an integer nearest to `n / d`: twice the distance
/// from `n` to `q * d` is at most `d`. Where `n / d` lies half way between
/// two integers, it is the one further from zero.
pub proof fn lemma_round_div_nearest(n: int, d: int)
    requires
        d > 0,
    ensures
        ({
            let q = round_div(n, d);
            &&& -d <= 2 * (n - q * d) <= d
            &&& n >= 0 ==> q >= 0 && 2 * (n - q * d) != d
            &&& n < 0 ==> q <= 0 && 2 * (n - q * d) != -d
        }),
{
    let m = if n >= 0 {
        n
    } else {
        -n
    };
    let k = (2 * m + d) / (2 * d);
    lemma_fundamental_div_mod(2 * m + d, 2 * d);
    assert((2 * d) * k == 2 * (k * d)) by (nonlinear_arith);
    assert(0 <= (2 * m + d) % (2 * d) < 2 * d);
    assert(k >= 0) by (nonlinear_arith)
        requires
            d > 0,
            2 * (k * d) + 2 * d > 2 * m + d,
            m >= 0,
    ;
    if n < 0 {
        assert((-k) * d == -(k * d)) by (nonlinear_arith);
    }
}

/// Where the corner of the box of cell `(x, y)` is projected back, it falls
/// on the cell itself or on a neighbour: the column is `x` or one less, the
/// row is `y` or one more. It falls on the cell itself exactly where the
/// width of the viewport and `(x + y) * scale` are even, `x` is positive and
/// `y` is negative.
pub proof fn lemma_round_trip_neighbour(x: int, y: int, scale: int, viewport_width: int)
    requires
        scale > 0,
        viewport_width >= 0,
    ensures
        ({
            let px = screen_x(x, y, scale, viewport_width);
            let py = screen_y(x, y, scale);
            let column = iso_x(px, py, viewport_width, scale);
            let row = iso_y(px, py, viewport_width, scale);
            &&& x - 1 <= column <= x
            &&& y <= row <= y + 1
            &&& (column == x && row == y) <==> (viewport_width % 2 == 0 && ((x + y) * scale) % 2
                == 0 && x >= 1 && y <= -1)
        }),
{
    let px = screen_x(x, y, scale, viewport_width);
    let py = screen_y(x, y, scale);
    let xs = x * scale;
    let ys = y * scale;
    let product = (x + y) * scale;
    // What the two halvings drop.
    let r = viewport_width - 2 * half_toward_zero(viewport_width);
    let e = product - 2 * half_toward_zero(product);
    assert(0 <= r <= 1 && -1 <= e <= 1);
    assert(r == 0 <==> viewport_width % 2 == 0);
    assert(e == 0 <==> product % 2 == 0);
    assert((x - y) * scale == xs - ys) by (nonlinear_arith)
        requires
            xs == x * scale,
            ys == y * scale,
    ;
    assert(product == xs + ys) by (nonlinear_arith)
        requires
            product == (x + y) * scale,
            xs == x * scale,
            ys == y * scale,
    ;
    let d = 4 * scale;
    let nx = 2 * px - viewport_width + 4 * py;
    let ny = 4 * py - 2 * px + viewport_width;
    assert(nx == 4 * xs - 2 * scale - (r + 2 * e));
    assert(ny == 4 * ys + 2 * scale + (r - 2 * e));
    assert(x >= 1 ==> xs >= scale) by (nonlinear_arith)
        requires
            xs == x * scale,
            scale > 0,
    ;
    assert(x <= 0 ==> xs <= 0) by (nonlinear_arith)
        requires
            xs == x * scale,
            scale > 0,
    ;
    assert(y >= 0 ==> ys >= 0) by (nonlinear_arith)
        requires
            ys == y * scale,
            scale > 0,
    ;
    assert(y <= -1 ==> ys <= -scale) by (nonlinear_arith)
        requires
            ys == y * scale,
            scale > 0,
    ;
    assert(x * d == 4 * xs && (x - 1) * d == 4 * xs - 4 * scale) by (nonlinear_arith)
        requires
            xs == x * scale,
            d == 4 * scale,
    ;
    assert(y * d == 4 * ys && (y + 1) * d == 4 * ys + 4 * scale) by (nonlinear_arith)
        requires
            ys == y * scale,
            d == 4 * scale,
    ;
    let cx = r + 2 * e;
    let column = if cx < 0 || (cx == 0 && x >= 1) {
        x
    } else {
        x - 1
    };
    lemma_round_div_is(nx, d, column);
    let cy = r - 2 * e;
    let row = if cy < 0 || (cy == 0 && y <= -1) {
        y
    } else {
        y + 1
    };
    lemma_round_div_is(ny, d, row);
}

/// From a cell to the corner of its box and back is the cell again, where
/// the width of the viewport and `(x + y) * scale` are even, `x` is positive
/// and `y` is negative.
pub proof fn lemma_round_trip(x: int, y: int, scale: int, viewport_width: int)
    requires
        scale > 0,
        viewport_width >= 0,
        viewport_width % 2 == 0,
        ((x + y) * scale) % 2 == 0,
        x >= 1,
        y <= -1,
    ensures
        iso_x(
            screen_x(x, y, scale, viewport_width),
            screen_y(x, y, scale),
            viewport_width,
            scale,
        ) == x,
        iso_y(
            screen_x(x, y, scale, viewport_width),
            screen_y(x, y, scale),
            viewport_width,
            scale,
        ) == y,
{
    lemma_round_trip_neighbour(x, y, scale, viewport_width);
}

} // verus!
