use vstd::prelude::*;

use crate::geometry::{chunk_coord, chunk_of_block, cheby};
use crate::plot::Plot;

verus! {

/// Largest view distance, in chunks.
pub const MAX_VIEW_DISTANCE: i32 = 1024;

/// Bound on chunk coordinates that the view logic takes: any chunk of an
/// `i32` block coordinate is well inside it.
pub const CHUNK_COORD_LIMIT: i32 = 0x1000_0000;

/// What a client must be sent after its player moved: the chunk to centre on,
/// the chunks to load and the chunks to blank out.
pub struct ViewUpdate {
    pub center: (i32, i32),
    pub loads: Vec<(i32, i32)>,
    pub unloads: Vec<(i32, i32)>,
}

pub open spec fn chunk_coord_ok(c: int) -> bool {
    -CHUNK_COORD_LIMIT <= c <= CHUNK_COORD_LIMIT
}

/// Whether a chunk coordinate is in the range that the view logic takes.
pub fn chunk_coord_in_range(c: i32) -> (r: bool)
    ensures
        r == chunk_coord_ok(c as int),
{
    -CHUNK_COORD_LIMIT <= c && c <= CHUNK_COORD_LIMIT
}

/// Whether the move from `last` to `new` is small enough to load only the
/// difference between the two views.
pub open spec fn is_delta_move(lx: int, lz: int, nx: int, nz: int, vd: int, force: bool) -> bool {
    let dx = if lx >= nx { lx - nx } else { nx - lx };
    let dz = if lz >= nz { lz - nz } else { nz - lz };
    dx <= 2 * vd && dz <= 2 * vd && !force
}

/// The chunks that a move from `last` to `new` loads.
pub open spec fn loaded_set(lx: int, lz: int, nx: int, nz: int, vd: int, force: bool) -> Set<(i32, i32)> {
    Set::new(
        |c: (i32, i32)|
            cheby(c.0 as int, c.1 as int, nx, nz) <= vd && (is_delta_move(lx, lz, nx, nz, vd, force)
                ==> cheby(c.0 as int, c.1 as int, lx, lz) > vd),
    )
}

/// The chunks that a move from `last` to `new` blanks out: the whole old view
/// when the move is too large, or forced, and none otherwise.
pub open spec fn unloaded_set(lx: int, lz: int, nx: int, nz: int, vd: int, force: bool) -> Set<(i32, i32)> {
    Set::new(
        |c: (i32, i32)|
            !is_delta_move(lx, lz, nx, nz, vd, force) && cheby(c.0 as int, c.1 as int, lx, lz) <= vd,
    )
}

/// Whether `(x, z)` comes before `(cx, cz)` in row-major order.
pub open spec fn before(x: int, z: int, cx: int, cz: int) -> bool {
    x < cx || (x == cx && z < cz)
}

/// The chunks of the box `[x0, x1] × [z0, z1]` within distance `vd` of
/// `(cx, cz)`, and, when `skip` is set, farther than `vd` from `(sx, sz)`.
pub open spec fn box_pick(c: (i32, i32), x0: int, x1: int, z0: int, z1: int, cx: int, cz: int, vd: int, skip: bool, sx: int, sz: int) -> bool {
    &&& x0 <= c.0 <= x1
    &&& z0 <= c.1 <= z1
    &&& cheby(c.0 as int, c.1 as int, cx, cz) <= vd
    &&& (skip ==> cheby(c.0 as int, c.1 as int, sx, sz) > vd)
}

/// Walks the box row by row and keeps the chunks that `box_pick` keeps.
fn collect_box(x0: i32, x1: i32, z0: i32, z1: i32, cx: i32, cz: i32, vd: i32, skip: bool, sx: i32, sz: i32) -> (r: Vec<(i32, i32)>)
    requires
        x0 <= x1 < i32::MAX,
        z0 <= z1 < i32::MAX,
        vd >= 0,
    ensures
        r@.no_duplicates(),
        forall|c: (i32, i32)|
            r@.contains(c) <==> box_pick(c, x0 as int, x1 as int, z0 as int, z1 as int, cx as int, cz as int, vd as int, skip, sx as int, sz as int),
{
    let mut r: Vec<(i32, i32)> = Vec::new();
    let mut x = x0;
    while x <= x1
        invariant
            x0 <= x <= x1 + 1,
            x1 < i32::MAX,
            z0 <= z1 < i32::MAX,
            vd >= 0,
            r@.no_duplicates(),
            forall|c: (i32, i32)|
                r@.contains(c) <==> (box_pick(c, x0 as int, x1 as int, z0 as int, z1 as int, cx as int, cz as int, vd as int, skip, sx as int, sz as int)
                    && c.0 < x),
        decreases x1 + 1 - x,
    {
        let mut z = z0;
        while z <= z1
            invariant
                x0 <= x <= x1,
                z0 <= z <= z1 + 1,
                x1 < i32::MAX,
                z1 < i32::MAX,
                vd >= 0,
                r@.no_duplicates(),
                forall|c: (i32, i32)|
                    r@.contains(c) <==> (box_pick(c, x0 as int, x1 as int, z0 as int, z1 as int, cx as int, cz as int, vd as int, skip, sx as int, sz as int)
                        && before(c.0 as int, c.1 as int, x as int, z as int)),
            decreases z1 + 1 - z,
        {
            let keep = get_distance(x, z, cx, cz) <= vd as i64 && (!skip || get_distance(x, z, sx, sz) > vd as i64);
            let ghost before_push = r@;
            if keep {
                r.push((x, z));
                proof {
                    assert(!before_push.contains((x, z)));
                    assert forall|a: int, b: int| 0 <= a < b < r@.len() implies r@[a] != r@[b] by {
                        if b == before_push.len() {
                            assert(before_push.contains(r@[a]));
                        }
                    }
                    assert forall|c: (i32, i32)| r@.contains(c) <==> before_push.contains(c) || c == (x, z) by {
                        if r@.contains(c) && c != (x, z) {
                            let k = choose|k: int| 0 <= k < r@.len() && r@[k] == c;
                            assert(before_push[k] == c);
                        }
                        if before_push.contains(c) {
                            let k = choose|k: int| 0 <= k < before_push.len() && before_push[k] == c;
                            assert(r@[k] == c);
                        }
                        assert(r@[before_push.len() as int] == (x, z));
                    }
                }
            }
            proof {
                assert(keep == box_pick((x, z), x0 as int, x1 as int, z0 as int, z1 as int, cx as int, cz as int, vd as int, skip, sx as int, sz as int));
                assert forall|c: (i32, i32)|
                    r@.contains(c) <==> (box_pick(c, x0 as int, x1 as int, z0 as int, z1 as int, cx as int, cz as int, vd as int, skip, sx as int, sz as int)
                        && before(c.0 as int, c.1 as int, x as int, z + 1)) by {
                    assert(before_push.contains(c) <==> (box_pick(c, x0 as int, x1 as int, z0 as int, z1 as int, cx as int, cz as int, vd as int, skip, sx as int, sz as int)
                        && before(c.0 as int, c.1 as int, x as int, z as int)));
                    if keep {
                        assert(r@.contains(c) <==> before_push.contains(c) || c == (x, z));
                    } else {
                        assert(r@ == before_push);
                    }
                    if c != (x, z) {
                        assert(before(c.0 as int, c.1 as int, x as int, z + 1) == before(c.0 as int, c.1 as int, x as int, z as int));
                    }
                }
            }
            z += 1;
        }
        proof {
            assert forall|c: (i32, i32)|
                r@.contains(c) <==> (box_pick(c, x0 as int, x1 as int, z0 as int, z1 as int, cx as int, cz as int, vd as int, skip, sx as int, sz as int)
                    && c.0 < x + 1) by {
                if box_pick(c, x0 as int, x1 as int, z0 as int, z1 as int, cx as int, cz as int, vd as int, skip, sx as int, sz as int) {
                    assert(before(c.0 as int, c.1 as int, x as int, z as int) == (c.0 < x + 1));
                }
            }
        }
        x += 1;
    }
    r
}

/// Chebyshev distance between two chunk positions, without overflow.
fn get_distance(x1: i32, z1: i32, x2: i32, z2: i32) -> (r: i64)
    ensures
        r as int == cheby(x1 as int, z1 as int, x2 as int, z2 as int),
{
    let dx: i64 = if x1 >= x2 { x1 as i64 - x2 as i64 } else { x2 as i64 - x1 as i64 };
    let dz: i64 = if z1 >= z2 { z1 as i64 - z2 as i64 } else { z2 as i64 - z1 as i64 };
    if dx >= dz { dx } else { dz }
}

/// The chunk messages for a view moving from chunk `(lx, lz)` to `(nx, nz)` at
/// view distance `vd`. A move of at most `2·vd` on each axis, unless forced,
/// loads only the chunks that come into view and blanks nothing; any other move
/// blanks the whole old view and loads the whole new one.
pub fn view_delta(lx: i32, lz: i32, nx: i32, nz: i32, vd: i32, force: bool) -> (u: ViewUpdate)
    requires
        chunk_coord_ok(lx as int),
        chunk_coord_ok(lz as int),
        chunk_coord_ok(nx as int),
        chunk_coord_ok(nz as int),
        0 <= vd <= MAX_VIEW_DISTANCE,
    ensures
        u.center == (nx, nz),
        u.loads@.no_duplicates(),
        u.unloads@.no_duplicates(),
        u.loads@.to_set() == loaded_set(lx as int, lz as int, nx as int, nz as int, vd as int, force),
        u.unloads@.to_set() == unloaded_set(lx as int, lz as int, nx as int, nz as int, vd as int, force),
{
    let dx: i32 = if lx >= nx { lx - nx } else { nx - lx };
    let dz: i32 = if lz >= nz { lz - nz } else { nz - lz };
    let delta = dx <= vd * 2 && dz <= vd * 2 && !force;
    let (loads, unloads) = if delta {
        let x0 = if nx < lx { nx } else { lx } - vd;
        let x1 = if nx > lx { nx } else { lx } + vd;
        let z0 = if nz < lz { nz } else { lz } - vd;
        let z1 = if nz > lz { nz } else { lz } + vd;
        (collect_box(x0, x1, z0, z1, nx, nz, vd, true, lx, lz), Vec::new())
    } else {
        (
            collect_box(nx - vd, nx + vd, nz - vd, nz + vd, nx, nz, vd, false, lx, lz),
            collect_box(lx - vd, lx + vd, lz - vd, lz + vd, lx, lz, vd, false, nx, nz),
        )
    };
    let ghost target_loads = loaded_set(lx as int, lz as int, nx as int, nz as int, vd as int, force);
    let ghost target_unloads = unloaded_set(lx as int, lz as int, nx as int, nz as int, vd as int, force);
    assert(loads@.to_set() =~= target_loads);
    assert(unloads@.to_set() =~= target_unloads);
    ViewUpdate { center: (nx, nz), loads, unloads }
}

/// A view that moves by one chunk along one axis loads exactly `2·vd + 1` chunks,
/// none of which was in view before.
pub proof fn lemma_one_chunk_move_loads(lx: int, lz: int, nx: int, nz: int, vd: int, loads: Seq<(i32, i32)>)
    requires
        chunk_coord_ok(lx),
        chunk_coord_ok(lz),
        chunk_coord_ok(nx),
        chunk_coord_ok(nz),
        0 <= vd <= MAX_VIEW_DISTANCE,
        (nx - lx == 0 && (nz - lz == 1 || nz - lz == -1)) || (nz - lz == 0 && (nx - lx == 1 || nx - lx == -1)),
        loads.no_duplicates(),
        loads.to_set() == loaded_set(lx, lz, nx, nz, vd, false),
    ensures
        loads.len() == 2 * vd + 1,
        forall|k: int| 0 <= k < loads.len() ==> cheby((#[trigger] loads[k]).0 as int, loads[k].1 as int, lx, lz) > vd,
{
    let dx = nx - lx;
    let dz = nz - lz;
    let edge = Seq::new(
        (2 * vd + 1) as nat,
        |k: int|
            if dx != 0 {
                ((nx + dx * vd) as i32, (nz - vd + k) as i32)
            } else {
                ((nx - vd + k) as i32, (nz + dz * vd) as i32)
            },
    );
    assert forall|a: int, b: int| 0 <= a < b < edge.len() implies edge[a] != edge[b] by {
        if dx != 0 {
            assert(edge[a].1 as int == nz - vd + a);
            assert(edge[b].1 as int == nz - vd + b);
        } else {
            assert(edge[a].0 as int == nx - vd + a);
            assert(edge[b].0 as int == nx - vd + b);
        }
    }
    let target = loaded_set(lx, lz, nx, nz, vd, false);
    assert(is_delta_move(lx, lz, nx, nz, vd, false) <==> vd >= 1);
    assert forall|c: (i32, i32)| edge.contains(c) <==> target.contains(c) by {
        if edge.contains(c) {
            let k = choose|k: int| 0 <= k < edge.len() && edge[k] == c;
            assert(edge[k] == c);
        }
        if target.contains(c) {
            if dx != 0 {
                let k = c.1 as int - (nz - vd);
                assert(c.0 as int == nx + dx * vd);
                assert(0 <= k < edge.len());
                assert(edge[k] == c);
            } else {
                let k = c.0 as int - (nx - vd);
                assert(c.1 as int == nz + dz * vd);
                assert(0 <= k < edge.len());
                assert(edge[k] == c);
            }
        }
    }
    assert(edge.to_set() =~= target);
    edge.unique_seq_to_set();
    loads.unique_seq_to_set();
    assert forall|k: int| 0 <= k < loads.len() implies cheby((#[trigger] loads[k]).0 as int, loads[k].1 as int, lx, lz) > vd by {
        assert(loads.to_set().contains(loads[k]));
    }
}

impl Plot {
    /// Re-centres a player's view on the chunk they stand in and says which
    /// chunks their client must be sent; the player's last chunk becomes that
    /// chunk.
    pub fn update_view_pos_for_player(&mut self, player_idx: usize, view_distance: i32, force_load: bool) -> (u: ViewUpdate)
        requires
            player_idx < old(self).players@.len(),
            0 <= view_distance <= MAX_VIEW_DISTANCE,
            chunk_coord_ok(old(self).players@[player_idx as int].last_chunk_x as int),
            chunk_coord_ok(old(self).players@[player_idx as int].last_chunk_z as int),
        ensures
            ({
                let p = old(self).players@[player_idx as int];
                let nx = chunk_of_block(p.pos.x as int);
                let nz = chunk_of_block(p.pos.z as int);
                &&& u.center == (nx as i32, nz as i32)
                &&& u.loads@.no_duplicates()
                &&& u.unloads@.no_duplicates()
                &&& u.loads@.to_set() == loaded_set(p.last_chunk_x as int, p.last_chunk_z as int, nx, nz, view_distance as int, force_load)
                &&& u.unloads@.to_set() == unloaded_set(p.last_chunk_x as int, p.last_chunk_z as int, nx, nz, view_distance as int, force_load)
                &&& final(self).players@[player_idx as int].last_chunk_x == nx
                &&& final(self).players@[player_idx as int].last_chunk_z == nz
            }),
            final(self).players@.len() == old(self).players@.len(),
            forall|i: int| 0 <= i < old(self).players@.len() && i != player_idx ==> #[trigger] final(self).players@[i] == old(self).players@[i],
            final(self).players@[player_idx as int].pos == old(self).players@[player_idx as int].pos,
            final(self).players@[player_idx as int].uuid == old(self).players@[player_idx as int].uuid,
            final(self).players@[player_idx as int].on_ground == old(self).players@[player_idx as int].on_ground,
            final(self).world == old(self).world,
            final(self).backend == old(self).backend,
    {
        let nx = chunk_coord(self.players[player_idx].pos.x);
        let nz = chunk_coord(self.players[player_idx].pos.z);
        proof {
            assert(chunk_coord_ok(nx as int)) by (nonlinear_arith)
                requires nx as int == (self.players@[player_idx as int].pos.x as int) / 16;
            assert(chunk_coord_ok(nz as int)) by (nonlinear_arith)
                requires nz as int == (self.players@[player_idx as int].pos.z as int) / 16;
        }
        let lx = self.players[player_idx].last_chunk_x;
        let lz = self.players[player_idx].last_chunk_z;
        let u = view_delta(lx, lz, nx, nz, view_distance, force_load);
        let player = &mut self.players[player_idx];
        player.last_chunk_x = nx;
        player.last_chunk_z = nz;
        u
    }
}

} // verus!
