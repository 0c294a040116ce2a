use vstd::prelude::*;

use crate::blocks::{AIR_ID, SANDSTONE_ID, STONE_BRICKS_ID};
use crate::geometry::{valid_plot_coord, PLOT_BLOCK_HEIGHT, PLOT_BLOCK_WIDTH, PLOT_WIDTH};
use crate::ticks::TickEntry;
use crate::world::{Chunk, PlotWorld};

verus! {

/// The floor block at column `(bx, bz)`: stone bricks on the outermost ring of
/// every plot, sandstone inside.
pub open spec fn flat_block(bx: int, bz: int) -> u32 {
    let mx = bx % (PLOT_BLOCK_WIDTH as int);
    let mz = bz % (PLOT_BLOCK_WIDTH as int);
    if mx == 0 || mx == PLOT_BLOCK_WIDTH - 1 || mz == 0 || mz == PLOT_BLOCK_WIDTH - 1 {
        STONE_BRICKS_ID
    } else {
        SANDSTONE_ID
    }
}

/// The block under `key` in the generated chunk `(x, z)` with `layers` layers of floor.
pub open spec fn generated_block(x: int, z: int, layers: int, key: int) -> u32 {
    if 0 <= key < 256 * layers {
        flat_block(x * 16 + key % 16, z * 16 + (key / 16) % 16)
    } else {
        AIR_ID
    }
}

/// Whether `b` is on the outermost ring of a plot along one axis.
fn on_border(b: i32) -> (r: bool)
    ensures
        r == (b as int % (PLOT_BLOCK_WIDTH as int) == 0 || b as int % (PLOT_BLOCK_WIDTH as int) == PLOT_BLOCK_WIDTH - 1),
{
    let m: i64 = if b >= 0 {
        b as i64 % 512
    } else {
        511 - ((-(b as i64 + 1)) % 512)
    };
    proof {
        if b < 0 {
            let n = -(b as int + 1);
            vstd::arithmetic::div_mod::lemma_fundamental_div_mod(n, 512);
            let q = n / 512;
            let r = n % 512;
            assert(b as int == 512 * (-q - 1) + (511 - r)) by (nonlinear_arith)
                requires n == 512 * q + r, n == -(b as int + 1);
            vstd::arithmetic::div_mod::lemma_fundamental_div_mod_converse(b as int, 512, -q - 1, 511 - r);
        }
    }
    m == 0 || m == 511
}

/// A chunk at `(x, z)` with `layers` layers of floor and air above.
pub fn generate_chunk(layers: i32, x: i32, z: i32) -> (c: Chunk)
    requires
        0 <= layers <= PLOT_BLOCK_HEIGHT,
        -0x0800_0000 <= x < 0x0800_0000,
        -0x0800_0000 <= z < 0x0800_0000,
    ensures
        c.x == x,
        c.z == z,
        forall|key: u32| #[trigger] c.block(key) == generated_block(x as int, z as int, layers as int, key as int),
        forall|key: u32| c.entity(key).is_none(),
        c.dirty@.len() == 0,
{
    let mut c = Chunk::empty(x, z);
    let total: u32 = 256 * layers as u32;
    let mut k: u32 = 0;
    while k < total
        invariant
            total == 256 * layers,
            k <= total,
            0 <= layers <= PLOT_BLOCK_HEIGHT,
            -0x0800_0000 <= x < 0x0800_0000,
            -0x0800_0000 <= z < 0x0800_0000,
            c.x == x,
            c.z == z,
            c.dirty@.len() == 0,
            forall|key: u32| c.entity(key).is_none(),
            forall|key: u32| #[trigger] c.block(key) == if key < k { generated_block(x as int, z as int, layers as int, key as int) } else { AIR_ID },
        decreases total - k,
    {
        let rx = k % 16;
        let rz = (k / 16) % 16;
        let ry = k / 256;
        let block_x = x * 16 + rx as i32;
        let block_z = z * 16 + rz as i32;
        let id = if on_border(block_x) || on_border(block_z) { STONE_BRICKS_ID } else { SANDSTONE_ID };
        proof {
            assert(rx + rz * 16 + ry * 256 == k) by (nonlinear_arith)
                requires rx == k % 16, rz == (k / 16) % 16, ry == k / 256, k >= 0;
            assert(ry < PLOT_BLOCK_HEIGHT) by (nonlinear_arith)
                requires ry == k / 256, k < 256 * layers, layers <= PLOT_BLOCK_HEIGHT;
        }
        let ghost pre = c;
        c.set_block(rx, ry, rz, id);
        proof {
            assert(id == generated_block(x as int, z as int, layers as int, k as int));
            assert forall|key: u32| c.entity(key).is_none() by {
                assert(pre.entity(key).is_none());
            }
            assert forall|key: u32| #[trigger] c.block(key) == if key < k + 1 { generated_block(x as int, z as int, layers as int, key as int) } else { AIR_ID } by {
                if key != k {
                    assert(c.block(key) == pre.block(key));
                }
            }
        }
        k += 1;
    }
    c
}

/// Why a saved plot cannot be used.
#[derive(Clone, Copy, Debug, PartialEq, Eq, Structural)]
pub enum PlotLoadError {
    /// The plot was saved with another number of chunks (another plot scale).
    WrongChunkCount { found: usize },
    /// The plot coordinates lie outside the world.
    OutOfWorld,
}

impl PlotWorld {
    /// A plot world with a flat floor of `layers` layers and nothing queued.
    pub fn generate(x: i32, z: i32, layers: i32) -> (w: PlotWorld)
        requires
            valid_plot_coord(x as int),
            valid_plot_coord(z as int),
            0 <= layers <= PLOT_BLOCK_HEIGHT,
        ensures
            w.wf(),
            w.x == x,
            w.z == z,
            w.to_be_ticked@.len() == 0,
            w.dirty_set() == Set::<crate::geometry::BlockPos>::empty(),
            forall|i: int, key: u32|
                0 <= i < w.chunks@.len() ==> #[trigger] w.chunks@[i].block(key) == generated_block(
                    x * PLOT_WIDTH + i / PLOT_WIDTH as int,
                    z * PLOT_WIDTH + i % PLOT_WIDTH as int,
                    layers as int,
                    key as int,
                ),
    {
        let mut chunks: Vec<Chunk> = Vec::new();
        let mut i: usize = 0;
        while i < 1024
            invariant
                0 <= i <= 1024,
                chunks@.len() == i,
                valid_plot_coord(x as int),
                valid_plot_coord(z as int),
                0 <= layers <= PLOT_BLOCK_HEIGHT,
                forall|j: int| 0 <= j < i ==> {
                    &&& (#[trigger] chunks@[j]).x == x * PLOT_WIDTH + j / PLOT_WIDTH as int
                    &&& chunks@[j].z == z * PLOT_WIDTH + j % PLOT_WIDTH as int
                    &&& chunks@[j].dirty@.len() == 0
                    &&& forall|key: u32| #[trigger] chunks@[j].block(key) == generated_block(
                        x * PLOT_WIDTH + j / PLOT_WIDTH as int,
                        z * PLOT_WIDTH + j % PLOT_WIDTH as int,
                        layers as int,
                        key as int,
                    )
                },
            decreases 1024 - i,
        {
            let cx = x * 32 + (i / 32) as i32;
            let cz = z * 32 + (i % 32) as i32;
            let c = generate_chunk(layers, cx, cz);
            chunks.push(c);
            i += 1;
        }
        let w = PlotWorld { x, z, chunks, to_be_ticked: Vec::new() };
        proof {
            assert forall|p: crate::geometry::BlockPos| !w.dirty_set().contains(p) by {
                if w.dirty_set().contains(p) {
                    let j = choose|j: int| 0 <= j < w.chunks@.len() && #[trigger] w.chunks@[j].dirty@.contains(p);
                    assert(w.chunks@[j].dirty@.len() == 0);
                }
            }
            assert(w.dirty_set() =~= Set::<crate::geometry::BlockPos>::empty());
        }
        w
    }

    /// A plot world from saved chunks, stored row-major by local x then z: each
    /// chunk gets its coordinates from its place, and nothing counts as changed.
    pub fn from_data(x: i32, z: i32, chunks: Vec<Chunk>, pending_ticks: Vec<TickEntry>) -> (r: Result<PlotWorld, PlotLoadError>)
        ensures
            !(valid_plot_coord(x as int) && valid_plot_coord(z as int)) ==> r == Err::<PlotWorld, PlotLoadError>(PlotLoadError::OutOfWorld),
            valid_plot_coord(x as int) && valid_plot_coord(z as int) && chunks@.len() != PLOT_WIDTH * PLOT_WIDTH
                ==> r == Err::<PlotWorld, PlotLoadError>(PlotLoadError::WrongChunkCount { found: chunks@.len() as usize }),
            valid_plot_coord(x as int) && valid_plot_coord(z as int) && chunks@.len() == PLOT_WIDTH * PLOT_WIDTH ==> (r matches Ok(w) && {
                &&& w.wf()
                &&& w.x == x && w.z == z
                &&& w.to_be_ticked@ == pending_ticks@
                &&& w.dirty_set() == Set::<crate::geometry::BlockPos>::empty()
                &&& forall|i: int| 0 <= i < chunks@.len() ==> (#[trigger] w.chunks@[i]).blocks@ == chunks@[i].blocks@
                    && w.chunks@[i].entities@ == chunks@[i].entities@
            }),
    {
        if x < crate::geometry::MIN_PLOT_COORD || x > crate::geometry::MAX_PLOT_COORD
            || z < crate::geometry::MIN_PLOT_COORD || z > crate::geometry::MAX_PLOT_COORD {
            return Err(PlotLoadError::OutOfWorld);
        }
        if chunks.len() != 1024 {
            return Err(PlotLoadError::WrongChunkCount { found: chunks.len() });
        }
        let mut chunks = chunks;
        let ghost orig = chunks@;
        let mut i: usize = 0;
        while i < 1024
            invariant
                0 <= i <= 1024,
                chunks@.len() == 1024,
                orig.len() == 1024,
                valid_plot_coord(x as int),
                valid_plot_coord(z as int),
                forall|j: int| 0 <= j < 1024 ==> (#[trigger] chunks@[j]).blocks@ == orig[j].blocks@
                    && chunks@[j].entities@ == orig[j].entities@,
                forall|j: int| 0 <= j < i ==> {
                    &&& (#[trigger] chunks@[j]).x == x * PLOT_WIDTH + j / PLOT_WIDTH as int
                    &&& chunks@[j].z == z * PLOT_WIDTH + j % PLOT_WIDTH as int
                    &&& chunks@[j].dirty@.len() == 0
                },
            decreases 1024 - i,
        {
            let c = &mut chunks[i];
            c.x = x * 32 + (i / 32) as i32;
            c.z = z * 32 + (i % 32) as i32;
            c.dirty = Vec::new();
            i += 1;
        }
        let w = PlotWorld { x, z, chunks, to_be_ticked: pending_ticks };
        proof {
            assert forall|p: crate::geometry::BlockPos| !w.dirty_set().contains(p) by {
                if w.dirty_set().contains(p) {
                    let j = choose|j: int| 0 <= j < w.chunks@.len() && #[trigger] w.chunks@[j].dirty@.contains(p);
                    assert(w.chunks@[j].dirty@.len() == 0);
                }
            }
            assert(w.dirty_set() =~= Set::<crate::geometry::BlockPos>::empty());
        }
        Ok(w)
    }
}

} // verus!
