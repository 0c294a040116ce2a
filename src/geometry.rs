use vstd::prelude::*;

verus! {

/// Plots are `2^PLOT_SCALE` chunks wide on each horizontal axis.
pub const PLOT_SCALE: u32 = 5;

/// The width of a plot counted in chunks.
pub const PLOT_WIDTH: i32 = 32;

/// The width of a plot counted in blocks.
pub const PLOT_BLOCK_WIDTH: i32 = PLOT_WIDTH * 16;

/// The number of chunks that make up one plot.
pub const NUM_CHUNKS: usize = 1024;

/// The height of the world in sections of sixteen blocks.
pub const PLOT_SECTIONS: usize = 24;

/// The height of the world in blocks.
pub const PLOT_BLOCK_HEIGHT: i32 = 384;

/// Smallest plot coordinate whose blocks all have `i32` coordinates.
pub const MIN_PLOT_COORD: i32 = -4194304;

/// Largest plot coordinate whose blocks all have `i32` coordinates.
pub const MAX_PLOT_COORD: i32 = 4194303;

/// A block position in world coordinates.
#[derive(Clone, Copy, Debug, PartialEq, Eq, Structural)]
pub struct BlockPos {
    pub x: i32,
    pub y: i32,
    pub z: i32,
}

impl BlockPos {
    pub fn new(x: i32, y: i32, z: i32) -> (r: BlockPos)
        ensures
            r == (BlockPos { x, y, z }),
    {
        BlockPos { x, y, z }
    }
}

/// `a / d` rounded down; `d` is positive wherever it is used.
pub open spec fn floor_div(a: int, d: int) -> int {
    a / d
}

/// The plot coordinate that holds a chunk coordinate.
pub open spec fn plot_of_chunk(c: int) -> int {
    floor_div(c, PLOT_WIDTH as int)
}

/// The chunk coordinate that holds a block coordinate.
pub open spec fn chunk_of_block(b: int) -> int {
    floor_div(b, 16)
}

/// The plot coordinate that holds a block coordinate.
pub open spec fn plot_of_block(b: int) -> int {
    floor_div(b, PLOT_BLOCK_WIDTH as int)
}

/// A plot coordinate whose whole span of blocks fits in `i32`.
pub open spec fn valid_plot_coord(p: int) -> bool {
    MIN_PLOT_COORD <= p <= MAX_PLOT_COORD
}

/// Chebyshev distance between two chunk positions.
pub open spec fn cheby(x1: int, z1: int, x2: int, z2: int) -> int {
    let dx = if x1 >= x2 { x1 - x2 } else { x2 - x1 };
    let dz = if z1 >= z2 { z1 - z2 } else { z2 - z1 };
    if dx >= dz { dx } else { dz }
}

/// Rounds `a / d` down, for a positive `d`.
fn div_floor(a: i32, d: i32) -> (r: i32)
    requires
        d > 0,
    ensures
        r == floor_div(a as int, d as int),
{
    if a >= 0 {
        let q = a / d;
        assert(q == floor_div(a as int, d as int)) by (nonlinear_arith)
            requires a >= 0, d > 0, q == a as int / d as int;
        q
    } else {
        let m: i32 = -(a + 1);
        let q = m / d;
        proof {
            lemma_floor_negative(a as int, d as int, q as int);
        }
        -q - 1
    }
}

proof fn lemma_floor_negative(a: int, d: int, q: int)
    requires
        a < 0,
        d > 0,
        q == (-(a + 1)) / d,
    ensures
        -q - 1 == floor_div(a, d),
{
    let m = -(a + 1);
    let r = m % d;
    vstd::arithmetic::div_mod::lemma_fundamental_div_mod(m, d);
    assert(m == d * q + r);
    assert(0 <= r < d);
    // a = -m - 1 = d * (-q - 1) + (d - 1 - r)
    assert(a == d * (-q - 1) + (d - 1 - r)) by (nonlinear_arith)
        requires m == d * q + r, a == -m - 1;
    vstd::arithmetic::div_mod::lemma_fundamental_div_mod_converse(a, d, -q - 1, d - 1 - r);
}

/// The chunk coordinate of a block coordinate.
pub fn chunk_coord(block: i32) -> (r: i32)
    ensures
        r == chunk_of_block(block as int),
{
    div_floor(block, 16)
}

/// The plot of any `i32` block coordinate is a valid plot coordinate.
pub proof fn lemma_plot_of_block_bounds(b: int)
    requires
        i32::MIN <= b <= i32::MAX,
    ensures
        valid_plot_coord(plot_of_block(b)),
{
    let r = plot_of_block(b);
    vstd::arithmetic::div_mod::lemma_fundamental_div_mod(b, 512);
    assert(valid_plot_coord(r)) by (nonlinear_arith)
        requires
            b == 512 * r + b % 512,
            0 <= b % 512 < 512,
            -0x8000_0000 <= b < 0x8000_0000;
}

/// The plot coordinate of a block coordinate.
pub fn plot_coord(block: i32) -> (r: i32)
    ensures
        r == plot_of_block(block as int),
        valid_plot_coord(r as int),
{
    let r = div_floor(block, PLOT_BLOCK_WIDTH);
    assert(valid_plot_coord(r as int)) by (nonlinear_arith)
        requires
            r == floor_div(block as int, 512),
            -0x8000_0000 <= block < 0x8000_0000;
    r
}

/// Whether the chunk at `(chunk_x, chunk_z)` lies in plot `(plot_x, plot_z)`.
pub fn chunk_in_plot_bounds(plot_x: i32, plot_z: i32, chunk_x: i32, chunk_z: i32) -> (r: bool)
    ensures
        r == (plot_of_chunk(chunk_x as int) == plot_x && plot_of_chunk(chunk_z as int) == plot_z),
{
    let x = div_floor(chunk_x, PLOT_WIDTH);
    let z = div_floor(chunk_z, PLOT_WIDTH);
    plot_x == x && plot_z == z
}

proof fn lemma_plot_of_block(b: int)
    ensures
        plot_of_chunk(chunk_of_block(b)) == plot_of_block(b),
{
    let q = b / 512;
    let r = b % 512;
    vstd::arithmetic::div_mod::lemma_fundamental_div_mod(b, 512);
    let r1 = r / 16;
    let r2 = r % 16;
    vstd::arithmetic::div_mod::lemma_fundamental_div_mod(r, 16);
    assert(0 <= r1 < 32) by (nonlinear_arith)
        requires r == 16 * r1 + r2, 0 <= r < 512, 0 <= r2 < 16;
    assert(b == 16 * (32 * q + r1) + r2) by (nonlinear_arith)
        requires b == 512 * q + r, r == 16 * r1 + r2;
    vstd::arithmetic::div_mod::lemma_fundamental_div_mod_converse(b, 16, 32 * q + r1, r2);
    vstd::arithmetic::div_mod::lemma_fundamental_div_mod_converse(32 * q + r1, 32, q, r1);
}

/// Whether the block column at `(x, z)` lies in plot `(plot_x, plot_z)`.
pub fn in_plot_bounds(plot_x: i32, plot_z: i32, x: i32, z: i32) -> (r: bool)
    ensures
        r == (plot_of_block(x as int) == plot_x && plot_of_block(z as int) == plot_z),
{
    proof {
        lemma_plot_of_block(x as int);
        lemma_plot_of_block(z as int);
    }
    chunk_in_plot_bounds(plot_x, plot_z, chunk_coord(x), chunk_coord(z))
}

/// Chebyshev distance between two chunk positions.
pub fn get_chunk_distance(x1: i32, z1: i32, x2: i32, z2: i32) -> (r: u32)
    ensures
        r as int == cheby(x1 as int, z1 as int, x2 as int, z2 as int),
{
    let dx: i64 = if x1 >= x2 { x1 as i64 - x2 as i64 } else { x2 as i64 - x1 as i64 };
    let dz: i64 = if z1 >= z2 { z1 as i64 - z2 as i64 } else { z2 as i64 - z1 as i64 };
    if dx >= dz { dx as u32 } else { dz as u32 }
}

/// The plot after `(x, z)` on the square spiral that walks out from the spawn
/// plot, ring by ring.
pub open spec fn next_plot_spec(x: int, z: int) -> (int, int) {
    let ax = if x >= 0 { x } else { -x };
    let az = if z >= 0 { z } else { -z };
    if ax > az {
        if x > 0 { (x, z + 1) } else { (x, z - 1) }
    } else if ax < az {
        if z > 0 { (x - 1, z) } else { (x + 1, z) }
    } else if (x == z && x > 0) || x == ax {
        (x, z + 1)
    } else if z == az {
        (x, z - 1)
    } else {
        (x + 1, z)
    }
}

/// The plot after `(plot_x, plot_z)` on the spiral, used to find a free plot.
pub fn get_next_plot(plot_x: i32, plot_z: i32) -> (r: (i32, i32))
    requires
        i32::MIN < plot_x < i32::MAX,
        i32::MIN < plot_z < i32::MAX,
    ensures
        (r.0 as int, r.1 as int) == next_plot_spec(plot_x as int, plot_z as int),
{
    let x = if plot_x >= 0 { plot_x } else { -plot_x };
    let z = if plot_z >= 0 { plot_z } else { -plot_z };
    if x > z {
        if plot_x > 0 { (plot_x, plot_z + 1) } else { (plot_x, plot_z - 1) }
    } else if x < z {
        if plot_z > 0 { (plot_x - 1, plot_z) } else { (plot_x + 1, plot_z) }
    } else if (plot_x == plot_z && plot_x > 0) || plot_x == x {
        (plot_x, plot_z + 1)
    } else if plot_z == z {
        (plot_x, plot_z - 1)
    } else {
        (plot_x + 1, plot_z)
    }
}

/// Where players go when plot `(plot_x, plot_z)` fails: the spawn plot, or
/// plot `(1, 0)` when the spawn plot itself failed.
pub fn send_away_plot(plot_x: i32, plot_z: i32) -> (r: (i32, i32))
    ensures
        r == if plot_x == 0 && plot_z == 0 { (1i32, 0i32) } else { (0i32, 0i32) },
{
    if plot_x == 0 && plot_z == 0 { (1, 0) } else { (0, 0) }
}

} // verus!
