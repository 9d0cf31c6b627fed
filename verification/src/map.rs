//! Terrain generation: a square grid of tiles, one per cell, classified from
//! a field of noise samples.
//!
//! Noise is held in fixed point: `NOISE_UNIT` stands for 1, so a sample lies
//! between `-NOISE_UNIT` and `NOISE_UNIT`, and a threshold of 0.3 is written
//! `300_000`.

use crate::tile::{Terrain, Tile};
use rand::Rng;
use vstd::arithmetic::div_mod::{lemma_fundamental_div_mod, lemma_fundamental_div_mod_converse};
use vstd::prelude::*;

verus! {

/// The fixed-point value of 1.
pub const NOISE_UNIT: i32 = 1_000_000;

/// A square field of noise samples, row by row: the sample of cell `(x, y)`
/// is at index `y * size + x`.
pub struct NoiseField {
    pub size: i32,
    pub samples: Vec<i32>,
}

/// The sample, brought from `[-1, 1]` to `[0, 1]`, is at most the threshold:
/// `(sample + 1) / 2 <= threshold`.
pub open spec fn is_low(sample: int, threshold: int) -> bool {
    sample + NOISE_UNIT <= 2 * threshold
}

/// Low noise is coal. Anything above the threshold is passable, and a draw
/// settles whether grass or flowers grow there.
pub open spec fn terrain_of(sample: int, threshold: int, draw: bool) -> Terrain {
    if is_low(sample, threshold) {
        Terrain::Coal
    } else if draw {
        Terrain::Grass
    } else {
        Terrain::Flowers
    }
}

/// The tiles cover a square of `size` by `size` cells whose corner is at
/// `(x_offset, y_offset)`, one tile per cell, row by row.
pub open spec fn on_grid(tiles: Seq<Tile>, size: int, x_offset: int, y_offset: int) -> bool {
    &&& 0 <= size
    &&& tiles.len() == size * size
    &&& forall|i: int|
        0 <= i < tiles.len() ==> (#[trigger] tiles[i]).x == i % size + x_offset && tiles[i].y == i
            / size + y_offset
}

/// Where the tile of cell `(x, y)` stands in such a sequence.
pub open spec fn grid_index(x: int, y: int, size: int, x_offset: int, y_offset: int) -> int {
    (y - y_offset) * size + (x - x_offset)
}

/// `tile` is passable and on the cell `(x, y)`.
pub open spec fn is_passable_at(tile: Tile, x: int, y: int) -> bool {
    tile.x == x && tile.y == y && tile.terrain != Terrain::Coal
}

/// Index of the first passable tile on `(x, y)` at or after `start`.
pub open spec fn first_passable_from(tiles: Seq<Tile>, x: int, y: int, start: int) -> Option<int>
    decreases tiles.len() - start,
{
    if start < 0 || start >= tiles.len() {
        None
    } else if is_passable_at(tiles[start], x, y) {
        Some(start)
    } else {
        first_passable_from(tiles, x, y, start + 1)
    }
}

/// Index of the first passable tile on `(x, y)`.
pub open spec fn first_passable(tiles: Seq<Tile>, x: int, y: int) -> Option<int> {
    first_passable_from(tiles, x, y, 0)
}

impl NoiseField {
    /// The field is square and every sample lies in `[-1, 1]`.
    pub open spec fn wf(&self) -> bool {
        &&& 0 <= self.size
        &&& self.samples@.len() == self.size * self.size
        &&& forall|i: int|
            0 <= i < self.samples@.len() ==> -NOISE_UNIT <= #[trigger] self.samples@[i]
                <= NOISE_UNIT
    }

    /// The sample of cell `(x, y)`.
    pub open spec fn at(&self, x: int, y: int) -> i32 {
        self.samples@[y * self.size + x]
    }

    /// A field of `map_size` by `map_size` samples, given row by row. `None`
    /// where the size is negative, the number of samples is not its square,
    /// or a sample lies outside `[-1, 1]`.
    pub fn from_samples(map_size: i32, samples: Vec<i32>) -> (field: Option<NoiseField>)
        ensures
            match field {
                Some(f) => f.wf() && f.size == map_size && f.samples@ == samples@,
                None => !(NoiseField { size: map_size, samples }).wf(),
            },
    {
        if map_size < 0 {
            return None;
        }
        assert(0 <= map_size * map_size <= 0x8000_0000 * 0x8000_0000) by (nonlinear_arith)
            requires
                0 <= map_size <= 0x8000_0000,
        ;
        if samples.len() as u64 != (map_size as u64) * (map_size as u64) {
            return None;
        }
        let mut i: usize = 0;
        while i < samples.len()
            invariant
                i <= samples.len(),
                forall|j: int| 0 <= j < i ==> -NOISE_UNIT <= #[trigger] samples@[j] <= NOISE_UNIT,
            decreases samples.len() - i,
        {
            if samples[i] < -NOISE_UNIT || samples[i] > NOISE_UNIT {
                return None;
            }
            i += 1;
        }
        Some(NoiseField { size: map_size, samples })
    }

    /// The sample of cell `(x, y)`.
    pub fn sample(&self, x: i32, y: i32) -> (v: i32)
        requires
            self.wf(),
            0 <= x < self.size,
            0 <= y < self.size,
        ensures
            v == self.at(x as int, y as int),
            -NOISE_UNIT <= v <= NOISE_UNIT,
    {
        proof {
            lemma_cell_index(x as int, y as int, self.size as int);
        }
        assert(self.size * self.size <= 0x8000_0000 * 0x8000_0000) by (nonlinear_arith)
            requires
                0 <= self.size <= 0x8000_0000,
        ;
        let index: u64 = (y as u64) * (self.size as u64) + x as u64;
        assert(index == y * self.size + x);
        assert(index < self.samples.len());
        self.samples[index as usize]
    }
}

/// The index of cell `(x, y)` in a square of side `size` lies within the
/// square, and gives back `x` and `y`.
proof fn lemma_cell_index(x: int, y: int, size: int)
    requires
        0 <= x < size,
        0 <= y < size,
    ensures
        0 <= y * size,
        y * size + x < size * size,
        (y * size + x) % size == x,
        (y * size + x) / size == y,
{
    assert(0 <= y * size && y * size + size <= size * size) by (nonlinear_arith)
        requires
            0 <= y < size,
    ;
    lemma_fundamental_div_mod_converse(y * size + x, size, y, x);
}

/// An index into a square of side `size` names a column and a row of it.
proof fn lemma_index_cell(i: int, size: int)
    requires
        0 <= size,
        0 <= i < size * size,
    ensures
        0 <= i % size < size,
        0 <= i / size < size,
        (i / size) * size + i % size == i,
{
    assert(size > 0) by (nonlinear_arith)
        requires
            0 <= size,
            0 <= i < size * size,
    ;
    lemma_fundamental_div_mod(i, size);
    let q = i / size;
    assert(q * size == size * q) by (nonlinear_arith);
    assert(0 <= q < size) by (nonlinear_arith)
        requires
            0 <= i < size * size,
            i == q * size + i % size,
            0 <= i % size < size,
            size > 0,
    ;
}

/// A grid holds exactly one tile for each cell of its square, and no tile
/// outside it.
pub proof fn lemma_grid_cells(tiles: Seq<Tile>, size: int, x_offset: int, y_offset: int)
    requires
        on_grid(tiles, size, x_offset, y_offset),
    ensures
        forall|i: int|
            0 <= i < tiles.len() ==> x_offset <= (#[trigger] tiles[i]).x < x_offset + size
                && y_offset <= tiles[i].y < y_offset + size,
        forall|i: int, j: int|
            0 <= i < j < tiles.len() ==> (#[trigger] tiles[i]).x != (#[trigger] tiles[j]).x
                || tiles[i].y != tiles[j].y,
        forall|x: int, y: int|
            x_offset <= x < x_offset + size && y_offset <= y < y_offset + size ==> {
                let i = #[trigger] grid_index(x, y, size, x_offset, y_offset);
                0 <= i < tiles.len() && tiles[i].x == x && tiles[i].y == y
            },
{
    assert forall|i: int| 0 <= i < tiles.len() implies x_offset <= (#[trigger] tiles[i]).x
        < x_offset + size && y_offset <= tiles[i].y < y_offset + size by {
        lemma_index_cell(i, size);
    }
    assert forall|i: int, j: int| 0 <= i < j < tiles.len() implies (#[trigger] tiles[i]).x != (
    #[trigger] tiles[j]).x || tiles[i].y != tiles[j].y by {
        lemma_index_cell(i, size);
        lemma_index_cell(j, size);
    }
    assert forall|x: int, y: int|
        x_offset <= x < x_offset + size && y_offset <= y < y_offset + size implies {
        let i = #[trigger] grid_index(x, y, size, x_offset, y_offset);
        0 <= i < tiles.len() && tiles[i].x == x && tiles[i].y == y
    } by {
        lemma_cell_index(x - x_offset, y - y_offset, size);
    }
}

/// What the search finds, from `start` on: a passable tile on the cell with
/// none before it, or that there is none.
pub proof fn lemma_first_passable_from(tiles: Seq<Tile>, x: int, y: int, start: int)
    requires
        0 <= start,
    ensures
        match first_passable_from(tiles, x, y, start) {
            Some(i) => {
                &&& start <= i < tiles.len()
                &&& is_passable_at(tiles[i], x, y)
                &&& forall|j: int| start <= j < i ==> !is_passable_at(#[trigger] tiles[j], x, y)
            },
            None => forall|j: int|
                start <= j < tiles.len() ==> !is_passable_at(#[trigger] tiles[j], x, y),
        },
    decreases tiles.len() - start,
{
    if start < tiles.len() && !is_passable_at(tiles[start], x, y) {
        lemma_first_passable_from(tiles, x, y, start + 1);
    }
}

/// Raising the threshold can turn a passable cell into coal, never coal into
/// a passable cell; a cell that stays passable keeps its terrain.
pub proof fn lemma_threshold_monotonic(sample: int, lower: int, higher: int, draw: bool)
    requires
        lower <= higher,
    ensures
        terrain_of(sample, lower, draw) == Terrain::Coal ==> terrain_of(sample, higher, draw)
            == Terrain::Coal,
        terrain_of(sample, higher, draw) != Terrain::Coal ==> terrain_of(sample, higher, draw)
            == terrain_of(sample, lower, draw),
{
}

/// `rand::Rng::gen_range` on the generator of `rand::thread_rng`, for a
/// half-open range of `u32`. Taken on trust: the value lies in the range.
/// Which value comes is left open, so nothing can be proved from two calls
/// agreeing. The generator is seeded by the system on first use, and
/// panics if the system has no seed to give.
#[verifier::external_body]
fn uniform_in(low: u32, high: u32) -> (r: u32)
    requires
        low < high,
    ensures
        low <= r < high,
{
    rand::thread_rng().gen_range(low..high)
}

/// The terrain of a cell from its noise sample, the threshold, and the draw
/// that breaks the tie between the two passable terrains.
pub fn classify(sample: i32, threshold: i32, draw: bool) -> (terrain: Terrain)
    ensures
        terrain == terrain_of(sample as int, threshold as int, draw),
{
    if sample as i64 + NOISE_UNIT as i64 <= 2 * (threshold as i64) {
        Terrain::Coal
    } else if draw {
        Terrain::Grass
    } else {
        Terrain::Flowers
    }
}

/// Builds the map of a noise field: one tile per cell, row by row, from
/// `(0, 0)`. A cell of low noise is coal. For each other cell a fair draw is
/// made, so two maps of one field agree on the coal and may differ in where
/// grass and where flowers grow.
pub fn generate_noisemap(field: &NoiseField, threshold: i32) -> (map: Vec<Tile>)
    requires
        field.wf(),
    ensures
        map@.len() == field.size * field.size,
        on_grid(map@, field.size as int, 0, 0),
        forall|i: int|
            0 <= i < map@.len() ==> 0 <= (#[trigger] map@[i]).x < field.size && 0 <= map@[i].y
                < field.size,
        forall|i: int, j: int|
            0 <= i < j < map@.len() ==> (#[trigger] map@[i]).x != (#[trigger] map@[j]).x
                || map@[i].y != map@[j].y,
        forall|i: int|
            0 <= i < map@.len() ==> {
                let sample = field.samples@[i] as int;
                (#[trigger] map@[i]).terrain == terrain_of(sample, threshold as int, true)
                    || map@[i].terrain == terrain_of(sample, threshold as int, false)
            },
{
    let size = field.size;
    let mut map: Vec<Tile> = Vec::new();
    let mut y: i32 = 0;
    while y < size
        invariant
            field.wf(),
            size == field.size,
            0 <= y <= size,
            map@.len() == y * size,
            forall|i: int|
                0 <= i < map@.len() ==> (#[trigger] map@[i]).x == i % (size as int) && map@[i].y
                    == i / (size as int),
            forall|i: int|
                0 <= i < map@.len() ==> {
                    let sample = field.samples@[i] as int;
                    (#[trigger] map@[i]).terrain == terrain_of(sample, threshold as int, true)
                        || map@[i].terrain == terrain_of(sample, threshold as int, false)
                },
        decreases size - y,
    {
        let mut x: i32 = 0;
        while x < size
            invariant
                field.wf(),
                size == field.size,
                0 <= y < size,
                0 <= x <= size,
                map@.len() == y * size + x,
                forall|i: int|
                    0 <= i < map@.len() ==> (#[trigger] map@[i]).x == i % (size as int)
                        && map@[i].y == i / (size as int),
                forall|i: int|
                    0 <= i < map@.len() ==> {
                        let sample = field.samples@[i] as int;
                        (#[trigger] map@[i]).terrain == terrain_of(sample, threshold as int, true)
                            || map@[i].terrain == terrain_of(sample, threshold as int, false)
                    },
            decreases size - x,
        {
            proof {
                lemma_cell_index(x as int, y as int, size as int);
            }
            let sample = field.sample(x, y);
            let draw = uniform_in(0, 2) == 1;
            let terrain = classify(sample, threshold, draw);
            map.push(Tile { x, y, terrain });
            x += 1;
        }
        assert((y + 1) * size == y * size + size) by (nonlinear_arith);
        y += 1;
    }
    proof {
        lemma_grid_cells(map@, size as int, 0, 0);
    }
    map
}

/// Looks for a passable tile on the cell `(x, y)` and gives the index of the
/// first one.
pub fn find_passable(map: &Vec<Tile>, x: i32, y: i32) -> (found: Option<usize>)
    ensures
        match found {
            Some(i) => {
                &&& first_passable(map@, x as int, y as int) == Some(i as int)
                &&& i < map@.len()
                &&& is_passable_at(map@[i as int], x as int, y as int)
                &&& forall|j: int|
                    0 <= j < i ==> !is_passable_at(#[trigger] map@[j], x as int, y as int)
            },
            None => {
                &&& first_passable(map@, x as int, y as int) == None::<int>
                &&& forall|j: int|
                    0 <= j < map@.len() ==> !is_passable_at(#[trigger] map@[j], x as int, y as int)
            },
        },
{
    let mut i: usize = 0;
    while i < map.len()
        invariant
            i <= map.len(),
            forall|j: int| 0 <= j < i ==> !is_passable_at(#[trigger] map@[j], x as int, y as int),
            first_passable(map@, x as int, y as int) == first_passable_from(
                map@,
                x as int,
                y as int,
                i as int,
            ),
        decreases map.len() - i,
    {
        let t = &map[i];
        let coal = match t.terrain {
            Terrain::Coal => true,
            _ => false,
        };
        if t.x == x && t.y == y && !coal {
            return Some(i);
        }
        i += 1;
    }
    None
}

} // verus!
