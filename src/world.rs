use std::collections::HashMap;
use vstd::prelude::*;

use crate::blocks::AIR_ID;
use crate::geometry::{
    valid_plot_coord, BlockPos, PLOT_BLOCK_HEIGHT, PLOT_BLOCK_WIDTH, PLOT_WIDTH,
};
use crate::ticks::TickEntry;

verus! {

broadcast use vstd::std_specs::hash::group_hash_axioms;

/// Data that a block carries beside its state id (sign text, container items):
/// a kind tag and its serialized payload.
#[derive(Clone, Debug)]
pub struct BlockEntity {
    pub kind: u32,
    pub data: Vec<u8>,
}

/// A block whose state id changed since the last flush, with its current id.
#[derive(Clone, Copy, Debug, PartialEq, Eq, Structural)]
pub struct BlockChange {
    pub pos: BlockPos,
    pub block: u32,
}

/// A 16-block-wide column of the world, `PLOT_BLOCK_HEIGHT` blocks tall.
/// Blocks are keyed by `local_key`; a key that is absent holds air.
pub struct Chunk {
    pub x: i32,
    pub z: i32,
    pub blocks: HashMap<u32, u32>,
    pub entities: HashMap<u32, BlockEntity>,
    /// Positions whose block changed since the last flush, each listed once.
    pub dirty: Vec<BlockPos>,
}

/// The key of a block inside its chunk.
pub open spec fn local_key(lx: int, y: int, lz: int) -> int {
    lx + lz * 16 + y * 256
}

impl Chunk {
    /// The state id stored under a key.
    pub open spec fn block(self, key: u32) -> u32 {
        if self.blocks@.contains_key(key) {
            self.blocks@[key]
        } else {
            AIR_ID
        }
    }

    /// The block entity stored under a key.
    pub open spec fn entity(self, key: u32) -> Option<BlockEntity> {
        if self.entities@.contains_key(key) {
            Some(self.entities@[key])
        } else {
            None
        }
    }

    /// A chunk of air with nothing to flush.
    pub fn empty(x: i32, z: i32) -> (r: Chunk)
        ensures
            r.x == x,
            r.z == z,
            forall|k: u32| r.block(k) == AIR_ID,
            forall|k: u32| r.entity(k).is_none(),
            r.dirty@.len() == 0,
    {
        Chunk { x, z, blocks: HashMap::new(), entities: HashMap::new(), dirty: Vec::new() }
    }

    /// The state id at a position inside the chunk.
    pub fn get_block(&self, lx: u32, y: u32, lz: u32) -> (r: u32)
        requires
            lx < 16,
            lz < 16,
            y < PLOT_BLOCK_HEIGHT,
        ensures
            r == self.block(local_key(lx as int, y as int, lz as int) as u32),
    {
        let key = lx + lz * 16 + y * 256;
        match self.blocks.get(&key) {
            Some(id) => *id,
            None => AIR_ID,
        }
    }

    /// Stores a state id at a position inside the chunk; returns whether it changed.
    pub fn set_block(&mut self, lx: u32, y: u32, lz: u32, id: u32) -> (changed: bool)
        requires
            lx < 16,
            lz < 16,
            y < PLOT_BLOCK_HEIGHT,
        ensures
            changed == (old(self).block(local_key(lx as int, y as int, lz as int) as u32) != id),
            final(self).blocks@ == old(self).blocks@.insert(
                local_key(lx as int, y as int, lz as int) as u32,
                id,
            ),
            final(self).x == old(self).x,
            final(self).z == old(self).z,
            final(self).entities@ == old(self).entities@,
            final(self).dirty@ == old(self).dirty@,
    {
        let key = lx + lz * 16 + y * 256;
        let previous = match self.blocks.get(&key) {
            Some(v) => *v,
            None => AIR_ID,
        };
        self.blocks.insert(key, id);
        previous != id
    }
}

/// The blocks, block entities and pending ticks of one plot.
pub struct PlotWorld {
    pub x: i32,
    pub z: i32,
    pub chunks: Vec<Chunk>,
    pub to_be_ticked: Vec<TickEntry>,
}

impl PlotWorld {
    /// The chunk at index `i` sits at local chunk `(i / PLOT_WIDTH, i % PLOT_WIDTH)`.
    pub open spec fn wf(self) -> bool {
        &&& valid_plot_coord(self.x as int)
        &&& valid_plot_coord(self.z as int)
        &&& self.chunks@.len() == PLOT_WIDTH * PLOT_WIDTH
        &&& forall|i: int|
            0 <= i < self.chunks@.len() ==> {
                &&& #[trigger] self.chunks@[i].x == self.x * PLOT_WIDTH + i / PLOT_WIDTH as int
                &&& self.chunks@[i].z == self.z * PLOT_WIDTH + i % PLOT_WIDTH as int
                &&& self.chunks@[i].dirty@.no_duplicates()
            }
    }

    pub open spec fn local_x(self, p: BlockPos) -> int {
        p.x - self.x * PLOT_BLOCK_WIDTH
    }

    pub open spec fn local_z(self, p: BlockPos) -> int {
        p.z - self.z * PLOT_BLOCK_WIDTH
    }

    /// Whether a position lies inside this plot and inside the height limit.
    pub open spec fn in_bounds(self, p: BlockPos) -> bool {
        &&& 0 <= self.local_x(p) < PLOT_BLOCK_WIDTH
        &&& 0 <= self.local_z(p) < PLOT_BLOCK_WIDTH
        &&& 0 <= p.y < PLOT_BLOCK_HEIGHT
    }

    /// Index of the chunk that holds an in-bounds position.
    pub open spec fn chunk_index(self, p: BlockPos) -> int {
        (self.local_x(p) / 16) * PLOT_WIDTH + self.local_z(p) / 16
    }

    /// Key of an in-bounds position inside its chunk.
    pub open spec fn block_key(self, p: BlockPos) -> u32 {
        local_key(self.local_x(p) % 16, p.y as int, self.local_z(p) % 16) as u32
    }

    /// The state id at a position; air outside the plot.
    pub open spec fn block_at(self, p: BlockPos) -> u32 {
        if self.in_bounds(p) {
            self.chunks@[self.chunk_index(p)].block(self.block_key(p))
        } else {
            AIR_ID
        }
    }

    /// The block entity at a position; none outside the plot.
    pub open spec fn entity_at(self, p: BlockPos) -> Option<BlockEntity> {
        if self.in_bounds(p) {
            self.chunks@[self.chunk_index(p)].entity(self.block_key(p))
        } else {
            None
        }
    }

    /// The positions that changed since the last flush, over all chunks.
    pub open spec fn dirty_set(self) -> Set<BlockPos> {
        Set::new(
            |p: BlockPos|
                exists|i: int| 0 <= i < self.chunks@.len() && #[trigger] self.chunks@[i].dirty@.contains(p),
        )
    }

    /// The plot coordinates of this world.
    pub fn get_plot(&self) -> (r: (i32, i32))
        ensures
            r == (self.x, self.z),
    {
        (self.x, self.z)
    }

    /// The lowest and the highest corner of the plot.
    pub open spec fn corners_spec(self) -> (BlockPos, BlockPos) {
        (
            BlockPos { x: (self.x * PLOT_BLOCK_WIDTH) as i32, y: 0, z: (self.z * PLOT_BLOCK_WIDTH) as i32 },
            BlockPos {
                x: ((self.x + 1) * PLOT_BLOCK_WIDTH - 1) as i32,
                y: (PLOT_BLOCK_HEIGHT - 1) as i32,
                z: ((self.z + 1) * PLOT_BLOCK_WIDTH - 1) as i32,
            },
        )
    }

    /// The lowest and the highest corner of the plot, in world coordinates.
    pub fn get_corners(&self) -> (r: (BlockPos, BlockPos))
        requires
            self.wf(),
        ensures
            r == self.corners_spec(),
            forall|p: BlockPos|
                self.in_bounds(p) <==> (r.0.x <= p.x <= r.1.x && r.0.y <= p.y <= r.1.y && r.0.z
                    <= p.z <= r.1.z),
    {
        let first = BlockPos::new(self.x * PLOT_BLOCK_WIDTH, 0, self.z * PLOT_BLOCK_WIDTH);
        let second = BlockPos::new(
            self.x * PLOT_BLOCK_WIDTH + (PLOT_BLOCK_WIDTH - 1),
            PLOT_BLOCK_HEIGHT - 1,
            self.z * PLOT_BLOCK_WIDTH + (PLOT_BLOCK_WIDTH - 1),
        );
        (first, second)
    }

    /// The index of the chunk at chunk coordinates `(chunk_x, chunk_z)`, or
    /// `None` when that chunk is not part of this plot.
    pub fn get_chunk_index_for_chunk(&self, chunk_x: i32, chunk_z: i32) -> (r: Option<usize>)
        requires
            self.wf(),
        ensures
            match r {
                Some(i) => i < self.chunks@.len() && self.chunks@[i as int].x == chunk_x
                    && self.chunks@[i as int].z == chunk_z,
                None => forall|i: int| 0 <= i < self.chunks@.len() ==> !((#[trigger] self.chunks@[i]).x == chunk_x
                    && self.chunks@[i].z == chunk_z),
            },
    {
        let lx: i64 = chunk_x as i64 - self.x as i64 * PLOT_WIDTH as i64;
        let lz: i64 = chunk_z as i64 - self.z as i64 * PLOT_WIDTH as i64;
        if lx < 0 || lx >= PLOT_WIDTH as i64 || lz < 0 || lz >= PLOT_WIDTH as i64 {
            proof {
                assert forall|i: int| 0 <= i < self.chunks@.len() implies !((#[trigger] self.chunks@[i]).x == chunk_x
                    && self.chunks@[i].z == chunk_z) by {
                    assert(0 <= i / 32 < 32 && 0 <= i % 32 < 32) by (nonlinear_arith)
                        requires 0 <= i < 1024;
                }
            }
            return None;
        }
        let i = (lx * 32 + lz) as usize;
        proof {
            assert(i as int / 32 == lx && i as int % 32 == lz) by (nonlinear_arith)
                requires i as int == lx * 32 + lz, 0 <= lz < 32, 0 <= lx < 32;
        }
        Some(i)
    }

    /// The chunk at chunk coordinates `(chunk_x, chunk_z)`, if it is part of this plot.
    pub fn get_chunk(&self, chunk_x: i32, chunk_z: i32) -> (r: Option<&Chunk>)
        requires
            self.wf(),
        ensures
            match r {
                Some(c) => c.x == chunk_x && c.z == chunk_z && exists|i: int| 0 <= i < self.chunks@.len() && self.chunks@[i] == *c,
                None => forall|i: int| 0 <= i < self.chunks@.len() ==> !((#[trigger] self.chunks@[i]).x == chunk_x
                    && self.chunks@[i].z == chunk_z),
            },
    {
        match self.get_chunk_index_for_chunk(chunk_x, chunk_z) {
            Some(i) => Some(&self.chunks[i]),
            None => None,
        }
    }

    /// Finds the chunk index and key of a position, or `None` outside the plot.
    fn locate(&self, pos: BlockPos) -> (r: Option<(usize, u32, u32, u32, u32)>)
        requires
            self.wf(),
        ensures
            r.is_some() == self.in_bounds(pos),
            r matches Some((i, lx, y, lz, key)) ==> {
                &&& i as int == self.chunk_index(pos)
                &&& 0 <= i < self.chunks@.len()
                &&& lx < 16 && lz < 16 && y < PLOT_BLOCK_HEIGHT
                &&& key == self.block_key(pos)
                &&& key as int == local_key(lx as int, y as int, lz as int)
            },
    {
        let lx: i64 = pos.x as i64 - self.x as i64 * PLOT_BLOCK_WIDTH as i64;
        let lz: i64 = pos.z as i64 - self.z as i64 * PLOT_BLOCK_WIDTH as i64;
        if lx < 0 || lx >= PLOT_BLOCK_WIDTH as i64 || lz < 0 || lz >= PLOT_BLOCK_WIDTH as i64 {
            return None;
        }
        if pos.y < 0 || pos.y >= PLOT_BLOCK_HEIGHT {
            return None;
        }
        let cx = (lx / 16) as usize;
        let cz = (lz / 16) as usize;
        let bx = (lx % 16) as u32;
        let bz = (lz % 16) as u32;
        let y = pos.y as u32;
        let i = cx * 32 + cz;
        let key = bx + bz * 16 + y * 256;
        Some((i, bx, y, bz, key))
    }
}

/// Two in-bounds positions with the same chunk index and key are the same position.
pub proof fn lemma_location_injective(w: PlotWorld, p: BlockPos, q: BlockPos)
    requires
        w.in_bounds(p),
        w.in_bounds(q),
        w.chunk_index(p) == w.chunk_index(q),
        w.block_key(p) == w.block_key(q),
    ensures
        p == q,
{
    let (px, pz, qx, qz) = (w.local_x(p), w.local_z(p), w.local_x(q), w.local_z(q));
    vstd::arithmetic::div_mod::lemma_fundamental_div_mod(px, 16);
    vstd::arithmetic::div_mod::lemma_fundamental_div_mod(pz, 16);
    vstd::arithmetic::div_mod::lemma_fundamental_div_mod(qx, 16);
    vstd::arithmetic::div_mod::lemma_fundamental_div_mod(qz, 16);
    let (a1, b1, a2, b2) = (px / 16, pz / 16, qx / 16, qz / 16);
    let (c1, d1, c2, d2) = (px % 16, pz % 16, qx % 16, qz % 16);
    assert(0 <= b1 < 32 && 0 <= b2 < 32 && 0 <= a1 < 32 && 0 <= a2 < 32) by (nonlinear_arith)
        requires
            px == 16 * a1 + c1, pz == 16 * b1 + d1, qx == 16 * a2 + c2, qz == 16 * b2 + d2,
            0 <= c1 < 16, 0 <= d1 < 16, 0 <= c2 < 16, 0 <= d2 < 16,
            0 <= px < 512, 0 <= pz < 512, 0 <= qx < 512, 0 <= qz < 512;
    assert(a1 == a2 && b1 == b2) by (nonlinear_arith)
        requires a1 * 32 + b1 == a2 * 32 + b2, 0 <= b1 < 32, 0 <= b2 < 32;
    let k1 = c1 + d1 * 16 + p.y * 256;
    let k2 = c2 + d2 * 16 + q.y * 256;
    assert(0 <= k1 < 0x1_0000_0000 && 0 <= k2 < 0x1_0000_0000) by (nonlinear_arith)
        requires
            k1 == c1 + d1 * 16 + p.y * 256, k2 == c2 + d2 * 16 + q.y * 256,
            0 <= c1 < 16, 0 <= d1 < 16, 0 <= c2 < 16, 0 <= d2 < 16,
            0 <= p.y < 384, 0 <= q.y < 384;
    assert(k1 == k2);
    assert(c1 == c2 && d1 == d2 && p.y == q.y) by (nonlinear_arith)
        requires
            c1 + d1 * 16 + p.y * 256 == c2 + d2 * 16 + q.y * 256,
            0 <= c1 < 16, 0 <= d1 < 16, 0 <= c2 < 16, 0 <= d2 < 16;
}

impl PlotWorld {
    /// Returns the state id at `pos`; air outside the plot.
    pub fn get_block_raw(&self, pos: BlockPos) -> (r: u32)
        requires
            self.wf(),
        ensures
            r == self.block_at(pos),
    {
        match self.locate(pos) {
            Some((i, lx, y, lz, _key)) => self.chunks[i].get_block(lx, y, lz),
            None => AIR_ID,
        }
    }

    /// Stores a state id at `pos` and returns whether the stored id changed.
    /// Outside the plot nothing happens. A change is recorded for the next flush.
    pub fn set_block_raw(&mut self, pos: BlockPos, block: u32) -> (changed: bool)
        requires
            old(self).wf(),
        ensures
            final(self).wf(),
            changed == (old(self).in_bounds(pos) && old(self).block_at(pos) != block),
            forall|q: BlockPos|
                #[trigger] final(self).block_at(q) == if q == pos && old(self).in_bounds(pos) {
                    block
                } else {
                    old(self).block_at(q)
                },
            forall|q: BlockPos| #[trigger] final(self).entity_at(q) == old(self).entity_at(q),
            final(self).dirty_set() == if changed {
                old(self).dirty_set().insert(pos)
            } else {
                old(self).dirty_set()
            },
            final(self).x == old(self).x,
            final(self).z == old(self).z,
            final(self).to_be_ticked@ == old(self).to_be_ticked@,
            forall|q: BlockPos| #[trigger] final(self).in_bounds(q) == old(self).in_bounds(q),
    {
        let (i, lx, y, lz, key) = match self.locate(pos) {
            Some(found) => found,
            None => return false,
        };
        let ghost pre = *self;
        let chunk = &mut self.chunks[i];
        let changed = chunk.set_block(lx, y, lz, block);
        if changed && !vec_contains(&chunk.dirty, pos) {
            chunk.dirty.push(pos);
        }
        proof {
            assert forall|q: BlockPos| #[trigger] self.block_at(q) == if q == pos {
                block
            } else {
                pre.block_at(q)
            } by {
                if q != pos && self.in_bounds(q) && self.chunk_index(q) == i as int
                    && self.block_key(q) == key {
                    lemma_location_injective(pre, pos, q);
                }
            }
            assert forall|q: BlockPos| #[trigger] self.entity_at(q) == pre.entity_at(q) by {
                if self.in_bounds(q) {
                    assert(self.chunks@[self.chunk_index(q)].entities@
                        == pre.chunks@[self.chunk_index(q)].entities@);
                }
            }
            let old_dirty = pre.chunks@[i as int].dirty@;
            let new_dirty = self.chunks@[i as int].dirty@;
            assert(forall|p: BlockPos| new_dirty.contains(p) <==> (old_dirty.contains(p) || (changed && p == pos))) by {
                if changed && !old_dirty.contains(pos) {
                    assert(new_dirty == old_dirty.push(pos));
                    assert forall|p: BlockPos| new_dirty.contains(p) <==> (old_dirty.contains(p) || p == pos) by {
                        if old_dirty.contains(p) {
                            let k = choose|k: int| 0 <= k < old_dirty.len() && old_dirty[k] == p;
                            assert(new_dirty[k] == p);
                        }
                        if new_dirty.contains(p) && p != pos {
                            let k = choose|k: int| 0 <= k < new_dirty.len() && new_dirty[k] == p;
                            assert(old_dirty[k] == p);
                        }
                        assert(new_dirty[old_dirty.len() as int] == pos);
                    }
                } else {
                    assert(new_dirty == old_dirty);
                }
            }
            lemma_dirty_set_changed(pre, *self, i as int, changed, pos);
            assert(new_dirty.no_duplicates()) by {
                if changed && !old_dirty.contains(pos) {
                    assert(new_dirty == old_dirty.push(pos));
                    assert forall|a: int, b: int| 0 <= a < b < new_dirty.len() implies new_dirty[a] != new_dirty[b] by {
                        if b == old_dirty.len() {
                            assert(old_dirty[a] == new_dirty[a]);
                        }
                    }
                }
            }
            lemma_wf_one_chunk_changed(pre, *self, i as int);
        }
        changed
    }

    /// Removes the block entity at `pos`, if any.
    pub fn delete_block_entity(&mut self, pos: BlockPos)
        requires
            old(self).wf(),
        ensures
            final(self).wf(),
            forall|q: BlockPos|
                #[trigger] final(self).entity_at(q) == if q == pos { None } else { old(self).entity_at(q) },
            forall|q: BlockPos| #[trigger] final(self).block_at(q) == old(self).block_at(q),
            final(self).dirty_set() == old(self).dirty_set(),
            final(self).x == old(self).x,
            final(self).z == old(self).z,
            final(self).to_be_ticked@ == old(self).to_be_ticked@,
    {
        let (i, _lx, _y, _lz, key) = match self.locate(pos) {
            Some(found) => found,
            None => return,
        };
        let ghost pre = *self;
        let chunk = &mut self.chunks[i];
        chunk.entities.remove(&key);
        proof {
            self.lemma_entities_updated(pre, pos, i as int, None);
        }
    }

    /// Stores a block entity at `pos`; outside the plot nothing happens.
    pub fn set_block_entity(&mut self, pos: BlockPos, block_entity: BlockEntity)
        requires
            old(self).wf(),
        ensures
            final(self).wf(),
            forall|q: BlockPos|
                #[trigger] final(self).entity_at(q) == if q == pos && old(self).in_bounds(pos) {
                    Some(block_entity)
                } else {
                    old(self).entity_at(q)
                },
            forall|q: BlockPos| #[trigger] final(self).block_at(q) == old(self).block_at(q),
            final(self).dirty_set() == old(self).dirty_set(),
            final(self).x == old(self).x,
            final(self).z == old(self).z,
            final(self).to_be_ticked@ == old(self).to_be_ticked@,
    {
        let (i, _lx, _y, _lz, key) = match self.locate(pos) {
            Some(found) => found,
            None => return,
        };
        let ghost pre = *self;
        let chunk = &mut self.chunks[i];
        chunk.entities.insert(key, block_entity);
        proof {
            self.lemma_entities_updated(pre, pos, i as int, Some(block_entity));
        }
    }

    /// The block entity at `pos`, if any.
    pub fn get_block_entity(&self, pos: BlockPos) -> (r: Option<&BlockEntity>)
        requires
            self.wf(),
        ensures
            r.is_some() == self.entity_at(pos).is_some(),
            r matches Some(e) ==> self.entity_at(pos) == Some(*e),
    {
        match self.locate(pos) {
            Some((i, _lx, _y, _lz, key)) => self.chunks[i].entities.get(&key),
            None => None,
        }
    }

    proof fn lemma_entities_updated(self, pre: PlotWorld, pos: BlockPos, i: int, e: Option<BlockEntity>)
        requires
            pre.wf(),
            pre.in_bounds(pos),
            i == pre.chunk_index(pos),
            self.x == pre.x,
            self.z == pre.z,
            self.chunks@.len() == pre.chunks@.len(),
            forall|j: int| 0 <= j < pre.chunks@.len() && j != i ==> #[trigger] self.chunks@[j] == pre.chunks@[j],
            self.chunks@[i].x == pre.chunks@[i].x,
            self.chunks@[i].z == pre.chunks@[i].z,
            self.chunks@[i].blocks@ == pre.chunks@[i].blocks@,
            self.chunks@[i].dirty@ == pre.chunks@[i].dirty@,
            self.chunks@[i].entities@ == match e {
                Some(v) => pre.chunks@[i].entities@.insert(pre.block_key(pos), v),
                None => pre.chunks@[i].entities@.remove(pre.block_key(pos)),
            },
        ensures
            self.wf(),
            forall|q: BlockPos|
                #[trigger] self.entity_at(q) == if q == pos { e } else { pre.entity_at(q) },
            forall|q: BlockPos| #[trigger] self.block_at(q) == pre.block_at(q),
            self.dirty_set() == pre.dirty_set(),
    {
        assert forall|q: BlockPos| #[trigger] self.entity_at(q) == if q == pos { e } else { pre.entity_at(q) } by {
            if q != pos && self.in_bounds(q) && self.chunk_index(q) == i
                && self.block_key(q) == pre.block_key(pos) {
                lemma_location_injective(pre, pos, q);
            }
        }
        assert forall|q: BlockPos| #[trigger] self.block_at(q) == pre.block_at(q) by {
            if self.in_bounds(q) {
                assert(self.chunks@[self.chunk_index(q)].blocks@ == pre.chunks@[self.chunk_index(q)].blocks@);
            }
        }
        assert forall|j: int| 0 <= j < self.chunks@.len() implies #[trigger] self.chunks@[j].dirty@ == pre.chunks@[j].dirty@ by {
            if j != i {
                assert(self.chunks@[j] == pre.chunks@[j]);
            }
        }
        lemma_dirty_set_changed(pre, self, i, false, pos);
        lemma_wf_one_chunk_changed(pre, self, i);
    }
}

impl PlotWorld {
    /// The positions listed in the dirty lists of chunks `0..i`, and in the first
    /// `k` entries of chunk `i`.
    pub open spec fn dirty_prefix(self, i: int, k: int) -> Set<BlockPos> {
        Set::new(
            |p: BlockPos|
                (exists|j: int| 0 <= j < i && #[trigger] self.chunks@[j].dirty@.contains(p)) || (
                exists|m: int| 0 <= m < k && #[trigger] self.chunks@[i].dirty@[m] == p),
        )
    }

    /// Takes every block change recorded since the last flush, with the current
    /// state id of each block, and empties the dirty lists.
    pub fn flush_block_changes(&mut self) -> (changes: Vec<BlockChange>)
        requires
            old(self).wf(),
        ensures
            final(self).wf(),
            forall|q: BlockPos| #[trigger] final(self).block_at(q) == old(self).block_at(q),
            forall|q: BlockPos| #[trigger] final(self).entity_at(q) == old(self).entity_at(q),
            forall|i: int| 0 <= i < final(self).chunks@.len() ==> (#[trigger] final(self).chunks@[i]).dirty@.len() == 0,
            final(self).dirty_set() == Set::<BlockPos>::empty(),
            forall|p: BlockPos|
                old(self).dirty_set().contains(p) <==> exists|k: int| 0 <= k < changes@.len() && (#[trigger] changes@[k]).pos == p,
            forall|k: int|
                0 <= k < changes@.len() ==> (#[trigger] changes@[k]).block == old(self).block_at(changes@[k].pos),
            final(self).x == old(self).x,
            final(self).z == old(self).z,
            final(self).to_be_ticked@ == old(self).to_be_ticked@,
    {
        let mut changes: Vec<BlockChange> = Vec::new();
        let n = self.chunks.len();
        let mut i: usize = 0;
        while i < n
            invariant
                self.wf(),
                n == self.chunks@.len(),
                0 <= i <= n,
                forall|p: BlockPos|
                    #[trigger] self.dirty_prefix(i as int, 0).contains(p) <==> exists|k: int| 0 <= k < changes@.len() && (#[trigger] changes@[k]).pos == p,
                forall|k: int|
                    0 <= k < changes@.len() ==> (#[trigger] changes@[k]).block == self.block_at(changes@[k].pos),
            decreases n - i,
        {
            let len = self.chunks[i].dirty.len();
            let mut k: usize = 0;
            while k < len
                invariant
                    self.wf(),
                    n == self.chunks@.len(),
                    0 <= i < n,
                    len == self.chunks@[i as int].dirty@.len(),
                    0 <= k <= len,
                    forall|p: BlockPos|
                        #[trigger] self.dirty_prefix(i as int, k as int).contains(p) <==> exists|m: int| 0 <= m < changes@.len() && (#[trigger] changes@[m]).pos == p,
                    forall|m: int|
                        0 <= m < changes@.len() ==> (#[trigger] changes@[m]).block == self.block_at(changes@[m].pos),
                decreases len - k,
            {
                let pos = self.chunks[i].dirty[k];
                let block = self.get_block_raw(pos);
                let ghost before = changes@;
                changes.push(BlockChange { pos, block });
                proof {
                    assert forall|p: BlockPos|
                        #[trigger] self.dirty_prefix(i as int, k + 1).contains(p) <==> exists|m: int| 0 <= m < changes@.len() && (#[trigger] changes@[m]).pos == p by {
                        if self.dirty_prefix(i as int, k + 1).contains(p) {
                            if p == pos {
                                assert(changes@[before.len() as int].pos == p);
                            } else {
                                if exists|j: int| 0 <= j < i && #[trigger] self.chunks@[j].dirty@.contains(p) {
                                    assert(self.dirty_prefix(i as int, k as int).contains(p));
                                } else {
                                    let m = choose|m: int| 0 <= m < k + 1 && #[trigger] self.chunks@[i as int].dirty@[m] == p;
                                    assert(self.dirty_prefix(i as int, k as int).contains(p));
                                }
                                let m = choose|m: int| 0 <= m < before.len() && (#[trigger] before[m]).pos == p;
                                assert(changes@[m].pos == p);
                            }
                        }
                        if exists|m: int| 0 <= m < changes@.len() && (#[trigger] changes@[m]).pos == p {
                            let m = choose|m: int| 0 <= m < changes@.len() && (#[trigger] changes@[m]).pos == p;
                            if m < before.len() {
                                assert(before[m].pos == p);
                                assert(self.dirty_prefix(i as int, k as int).contains(p));
                            } else {
                                assert(self.chunks@[i as int].dirty@[k as int] == p);
                            }
                        }
                    }
                    assert forall|m: int| 0 <= m < changes@.len() implies (#[trigger] changes@[m]).block == self.block_at(changes@[m].pos) by {
                        if m < before.len() {
                            assert(changes@[m] == before[m]);
                        }
                    }
                }
                k += 1;
            }
            proof {
                assert forall|p: BlockPos| #[trigger] self.dirty_prefix(i + 1, 0).contains(p) <==> self.dirty_prefix(i as int, len as int).contains(p) by {
                    if self.dirty_prefix(i + 1, 0).contains(p) {
                        let j = choose|j: int| 0 <= j < i + 1 && #[trigger] self.chunks@[j].dirty@.contains(p);
                        if j == i {
                            let m = choose|m: int| 0 <= m < len && self.chunks@[i as int].dirty@[m] == p;
                            assert(self.chunks@[i as int].dirty@[m] == p);
                        }
                    }
                    if self.dirty_prefix(i as int, len as int).contains(p) {
                        if !(exists|j: int| 0 <= j < i && #[trigger] self.chunks@[j].dirty@.contains(p)) {
                            let m = choose|m: int| 0 <= m < len && #[trigger] self.chunks@[i as int].dirty@[m] == p;
                            assert(self.chunks@[i as int].dirty@.contains(p));
                        }
                    }
                }
            }
            i += 1;
        }
        proof {
            assert forall|p: BlockPos| #[trigger] self.dirty_set().contains(p) <==> exists|k: int| 0 <= k < changes@.len() && (#[trigger] changes@[k]).pos == p by {
                assert(self.dirty_prefix(n as int, 0).contains(p) <==> self.dirty_set().contains(p));
            }
        }
        let ghost pre = *self;
        let mut i: usize = 0;
        while i < n
            invariant
                pre.wf(),
                n == self.chunks@.len(),
                n == pre.chunks@.len(),
                0 <= i <= n,
                self.x == pre.x,
                self.z == pre.z,
                self.to_be_ticked@ == pre.to_be_ticked@,
                forall|j: int| 0 <= j < n ==> {
                    &&& (#[trigger] self.chunks@[j]).x == pre.chunks@[j].x
                    &&& self.chunks@[j].z == pre.chunks@[j].z
                    &&& self.chunks@[j].blocks@ == pre.chunks@[j].blocks@
                    &&& self.chunks@[j].entities@ == pre.chunks@[j].entities@
                    &&& self.chunks@[j].dirty@ == if j < i { Seq::<BlockPos>::empty() } else { pre.chunks@[j].dirty@ }
                },
            decreases n - i,
        {
            let chunk = &mut self.chunks[i];
            chunk.dirty.clear();
            i += 1;
        }
        proof {
            assert forall|q: BlockPos| #[trigger] self.block_at(q) == pre.block_at(q) by {
                if self.in_bounds(q) {
                    assert(self.chunks@[self.chunk_index(q)].blocks@ == pre.chunks@[self.chunk_index(q)].blocks@);
                }
            }
            assert forall|q: BlockPos| #[trigger] self.entity_at(q) == pre.entity_at(q) by {
                if self.in_bounds(q) {
                    assert(self.chunks@[self.chunk_index(q)].entities@ == pre.chunks@[self.chunk_index(q)].entities@);
                }
            }
            assert forall|p: BlockPos| !self.dirty_set().contains(p) by {
                if self.dirty_set().contains(p) {
                    let j = choose|j: int| 0 <= j < self.chunks@.len() && #[trigger] self.chunks@[j].dirty@.contains(p);
                    assert(self.chunks@[j].dirty@.len() == 0);
                }
            }
            assert(self.dirty_set() =~= Set::<BlockPos>::empty());
            assert forall|j: int| 0 <= j < self.chunks@.len() implies {
                &&& #[trigger] self.chunks@[j].x == self.x * PLOT_WIDTH + j / PLOT_WIDTH as int
                &&& self.chunks@[j].z == self.z * PLOT_WIDTH + j % PLOT_WIDTH as int
                &&& self.chunks@[j].dirty@.no_duplicates()
            } by {
                assert(pre.chunks@[j].x == pre.x * PLOT_WIDTH + j / PLOT_WIDTH as int);
            }
        }
        changes
    }
}

impl PlotWorld {
    /// Writes `changes` in order, as `set_block_raw` does one by one.
    pub fn apply_block_changes(&mut self, changes: &Vec<BlockChange>)
        requires
            old(self).wf(),
        ensures
            final(self).wf(),
            forall|q: BlockPos| #[trigger] final(self).block_at(q) == match crate::plot::last_write(changes@, q) {
                Some(b) => if old(self).in_bounds(q) { b } else { 0 },
                None => old(self).block_at(q),
            },
            old(self).dirty_set().subset_of(final(self).dirty_set()),
            forall|q: BlockPos| #[trigger] final(self).block_at(q) != old(self).block_at(q) ==> final(self).dirty_set().contains(q),
            final(self).x == old(self).x,
            final(self).z == old(self).z,
            final(self).to_be_ticked@ == old(self).to_be_ticked@,
    {
        let ghost pre = *self;
        let mut i: usize = 0;
        while i < changes.len()
            invariant
                self.wf(),
                0 <= i <= changes@.len(),
                self.x == pre.x,
                self.z == pre.z,
                self.to_be_ticked@ == pre.to_be_ticked@,
                pre.dirty_set().subset_of(self.dirty_set()),
                forall|q: BlockPos| #[trigger] self.block_at(q) != pre.block_at(q) ==> self.dirty_set().contains(q),
                forall|q: BlockPos| #[trigger] self.in_bounds(q) == pre.in_bounds(q),
                forall|q: BlockPos| #[trigger] self.block_at(q) == match crate::plot::last_write(changes@.subrange(0, i as int), q) {
                    Some(b) => if pre.in_bounds(q) { b } else { 0 },
                    None => pre.block_at(q),
                },
            decreases changes@.len() - i,
        {
            let c = changes[i];
            let ghost before = *self;
            self.set_block_raw(c.pos, c.block);
            proof {
                assert forall|q: BlockPos| #[trigger] self.block_at(q) != pre.block_at(q) implies self.dirty_set().contains(q) by {
                    if q != c.pos || self.block_at(q) == before.block_at(q) {
                        assert(before.block_at(q) != pre.block_at(q));
                        assert(before.dirty_set().contains(q));
                    }
                }
                assert(changes@.subrange(0, i + 1).drop_last() =~= changes@.subrange(0, i as int));
                assert(changes@.subrange(0, i + 1).last() == c);
            }
            i += 1;
        }
        assert(changes@.subrange(0, changes@.len() as int) =~= changes@);
    }
}

/// Well-formedness survives a change to one chunk that keeps its coordinates
/// and a dirty list without duplicates.
proof fn lemma_wf_one_chunk_changed(pre: PlotWorld, post: PlotWorld, i: int)
    requires
        pre.wf(),
        0 <= i < pre.chunks@.len(),
        post.x == pre.x,
        post.z == pre.z,
        post.chunks@.len() == pre.chunks@.len(),
        forall|j: int| 0 <= j < pre.chunks@.len() && j != i ==> #[trigger] post.chunks@[j] == pre.chunks@[j],
        post.chunks@[i].x == pre.chunks@[i].x,
        post.chunks@[i].z == pre.chunks@[i].z,
        post.chunks@[i].dirty@.no_duplicates(),
    ensures
        post.wf(),
{
    assert forall|j: int| 0 <= j < post.chunks@.len() implies {
        &&& #[trigger] post.chunks@[j].x == post.x * PLOT_WIDTH + j / PLOT_WIDTH as int
        &&& post.chunks@[j].z == post.z * PLOT_WIDTH + j % PLOT_WIDTH as int
        &&& post.chunks@[j].dirty@.no_duplicates()
    } by {
        assert(pre.chunks@[j].x == pre.x * PLOT_WIDTH + j / PLOT_WIDTH as int);
        if j != i {
            assert(post.chunks@[j] == pre.chunks@[j]);
        }
    }
}

/// How the dirty set follows when one chunk's dirty list gains at most `pos`.
proof fn lemma_dirty_set_changed(pre: PlotWorld, post: PlotWorld, i: int, added: bool, pos: BlockPos)
    requires
        0 <= i < pre.chunks@.len(),
        post.chunks@.len() == pre.chunks@.len(),
        forall|j: int| 0 <= j < pre.chunks@.len() && j != i ==> #[trigger] post.chunks@[j].dirty@ == pre.chunks@[j].dirty@,
        forall|p: BlockPos| post.chunks@[i].dirty@.contains(p) <==> (pre.chunks@[i].dirty@.contains(p) || (added && p == pos)),
        added ==> pre.in_bounds(pos),
    ensures
        post.dirty_set() == if added { pre.dirty_set().insert(pos) } else { pre.dirty_set() },
{
    let target = if added { pre.dirty_set().insert(pos) } else { pre.dirty_set() };
    assert forall|p: BlockPos| post.dirty_set().contains(p) <==> target.contains(p) by {
        if post.dirty_set().contains(p) {
            let j = choose|j: int| 0 <= j < post.chunks@.len() && #[trigger] post.chunks@[j].dirty@.contains(p);
            if j != i {
                assert(pre.chunks@[j].dirty@.contains(p));
            } else if !(added && p == pos) {
                assert(pre.chunks@[j].dirty@.contains(p));
            }
        }
        if pre.dirty_set().contains(p) {
            let j = choose|j: int| 0 <= j < pre.chunks@.len() && #[trigger] pre.chunks@[j].dirty@.contains(p);
            assert(post.chunks@[j].dirty@.contains(p));
        }
        if added && p == pos {
            assert(post.chunks@[i].dirty@.contains(p));
        }
    }
    assert(post.dirty_set() =~= target);
}

/// Whether `v` holds `p`.
fn vec_contains(v: &Vec<BlockPos>, p: BlockPos) -> (r: bool)
    ensures
        r == v@.contains(p),
{
    let mut i: usize = 0;
    while i < v.len()
        invariant
            0 <= i <= v@.len(),
            forall|j: int| 0 <= j < i ==> v@[j] != p,
        decreases v@.len() - i,
    {
        if v[i] == p {
            return true;
        }
        i += 1;
    }
    false
}

} // verus!
