use vstd::prelude::*;

use crate::blocks::{block_of_id, id_of_block, Block};
use crate::geometry::{plot_coord, plot_of_block, valid_plot_coord, BlockPos};
use crate::pacing::{
    batch_size, batch_spec, max_batch_size, max_batch_spec, should_unload_spec, Tps, IDLE_UNLOAD_SECS,
    MAX_TICK_BATCH, NANOS_PER_SEC,
};
use crate::ticks::{fired, still_waiting, TickEntry};
use crate::world::{BlockChange, PlotWorld};

verus! {

/// A player's game mode.
#[derive(Clone, Copy, Debug, PartialEq, Eq, Structural)]
pub enum Gamemode {
    Survival,
    Creative,
    Adventure,
    Spectator,
}

/// A signed profile property of a player, such as the skin.
#[derive(Clone, Debug)]
pub struct PlayerProperty {
    pub name: String,
    pub value: String,
    pub signature: Option<String>,
}

impl PlayerProperty {
    /// An equal copy.
    pub fn duplicate(&self) -> (r: PlayerProperty)
        ensures
            r == *self,
    {
        let signature = match &self.signature {
            Some(s) => Some(s.clone()),
            None => None,
        };
        PlayerProperty { name: self.name.clone(), value: self.value.clone(), signature }
    }
}

/// An equal copy of a list of properties.
pub fn duplicate_properties(v: &Vec<PlayerProperty>) -> (r: Vec<PlayerProperty>)
    ensures
        r@ == v@,
{
    let mut r: Vec<PlayerProperty> = Vec::new();
    let mut i: usize = 0;
    while i < v.len()
        invariant
            0 <= i <= v@.len(),
            r@ == v@.subrange(0, i as int),
        decreases v@.len() - i,
    {
        r.push(v[i].duplicate());
        i += 1;
        assert(r@ =~= v@.subrange(0, i as int));
    }
    assert(v@.subrange(0, v@.len() as int) =~= v@);
    r
}

/// What the plot logic knows of a player: who they are, the block they stand in,
/// the chunk their client was last centred on and their selection corners.
pub struct Player {
    pub uuid: u128,
    pub entity_id: u32,
    pub username: String,
    pub properties: Vec<PlayerProperty>,
    pub gamemode: Gamemode,
    pub pos: BlockPos,
    pub on_ground: bool,
    pub crouching: bool,
    pub last_chunk_x: i32,
    pub last_chunk_z: i32,
    pub first_position: Option<BlockPos>,
    pub second_position: Option<BlockPos>,
}

impl Player {
    /// The plot that holds the player's position.
    pub open spec fn plot_pos_spec(&self) -> (int, int) {
        (plot_of_block(self.pos.x as int), plot_of_block(self.pos.z as int))
    }

    /// The plot that holds the player's position.
    pub fn plot_pos(&self) -> (r: (i32, i32))
        ensures
            (r.0 as int, r.1 as int) == self.plot_pos_spec(),
            valid_plot_coord(r.0 as int),
            valid_plot_coord(r.1 as int),
    {
        (plot_coord(self.pos.x), plot_coord(self.pos.z))
    }
}

/// Whether a compiled backend runs the plot instead of the interpreter.
#[derive(Clone, Copy, Debug, PartialEq, Eq, Structural)]
pub enum BackendState {
    Idle,
    Active { io_only: bool },
}

/// A pressure plate that changes state, and whether the backend takes the change.
#[derive(Clone, Copy, Debug, PartialEq, Eq, Structural)]
pub struct PlateChange {
    pub pos: BlockPos,
    pub powered: bool,
    /// The backend was handed the change; otherwise the world holds it and the
    /// blocks around `pos` and below it need an update.
    pub by_backend: bool,
}

/// The kind of backend to compile the plot into.
#[derive(Clone, Copy, Debug, PartialEq, Eq, Structural)]
pub enum BackendVariant {
    /// Runs on the host.
    Direct,
    /// Runs on a hardware accelerator slot.
    Fpga,
}

/// What a backend compilation starts from.
pub struct BackendStart {
    /// The region to compile, lowest corner first.
    pub bounds: (BlockPos, BlockPos),
    /// The pending ticks, handed over to the backend.
    pub ticks: Vec<TickEntry>,
    /// Whether the accelerator scheduler's configuration must be fetched for
    /// the compilation.
    pub needs_accelerator_config: bool,
}

/// The state of one plot worker. Times are nanoseconds on a monotonic clock.
pub struct Plot {
    pub world: PlotWorld,
    pub players: Vec<Player>,
    pub backend: BackendState,
    pub tps: Tps,
    pub world_send_rate: u32,
    pub last_update_time: u64,
    pub lag_time: u64,
    pub last_nspt: Option<u64>,
    pub last_player_time: u64,
    pub last_world_send_time: u64,
    pub running: bool,
    pub always_running: bool,
    pub owner: Option<u128>,
}

/// The state ids after writing `changes` in order: the last write to `q`, if any.
pub open spec fn last_write(changes: Seq<BlockChange>, q: BlockPos) -> Option<u32>
    decreases changes.len(),
{
    if changes.len() == 0 {
        None
    } else if changes.last().pos == q {
        Some(changes.last().block)
    } else {
        last_write(changes.drop_last(), q)
    }
}

/// What stopping an active backend does, from `pre` to `post`: the backend is
/// idle, the world holds the backend's last state `terminal` written in order,
/// every block that changed goes out with the next flush, nothing is queued for
/// the interpreter, and the timings start afresh at `now`.
pub open spec fn backend_reset(pre: Plot, post: Plot, terminal: Seq<BlockChange>, now: u64) -> bool {
    &&& post.backend == BackendState::Idle
    &&& post.world.to_be_ticked@.len() == 0
    &&& forall|q: BlockPos| #[trigger] post.world.block_at(q) == match last_write(terminal, q) {
        Some(b) => if pre.world.in_bounds(q) { b } else { 0 },
        None => pre.world.block_at(q),
    }
    &&& pre.world.dirty_set().subset_of(post.world.dirty_set())
    &&& forall|q: BlockPos| #[trigger] post.world.block_at(q) != pre.world.block_at(q) ==> post.world.dirty_set().contains(q)
    &&& post.lag_time == 0
    &&& post.last_update_time == now
    &&& post.last_nspt.is_none()
}

impl Plot {
    /// The world is well formed, the send rate is positive, and while a backend
    /// runs, the interpreter's queue is empty.
    pub open spec fn wf(&self) -> bool {
        &&& self.world.wf()
        &&& self.world_send_rate > 0
        &&& (self.backend matches BackendState::Active { .. } ==> self.world.to_be_ticked@.len() == 0)
    }

    /// A plot that starts running now, with no players and no backend.
    pub fn new(world: PlotWorld, tps: Tps, world_send_rate: u32, always_running: bool, owner: Option<u128>, now: u64) -> (r: Plot)
        requires
            world.wf(),
            world_send_rate > 0,
        ensures
            r.wf(),
            r.world == world,
            r.players@.len() == 0,
            r.backend == BackendState::Idle,
            r.tps == tps,
            r.world_send_rate == world_send_rate,
            r.last_update_time == now,
            r.lag_time == 0,
            r.last_nspt.is_none(),
            r.last_player_time == now,
            r.last_world_send_time == now,
            r.running,
            r.always_running == always_running,
            r.owner == owner,
    {
        Plot {
            world,
            players: Vec::new(),
            backend: BackendState::Idle,
            tps,
            world_send_rate,
            last_update_time: now,
            lag_time: 0,
            last_nspt: None,
            last_player_time: now,
            last_world_send_time: now,
            running: true,
            always_running,
            owner,
        }
    }

    /// Forgets accumulated lag, so that a long operation is not taken for the
    /// simulation running behind.
    pub fn reset_timings(&mut self, now: u64)
        ensures
            final(self).lag_time == 0,
            final(self).last_update_time == now,
            final(self).last_nspt.is_none(),
            final(self).world == old(self).world,
            final(self).players@ == old(self).players@,
            final(self).backend == old(self).backend,
            final(self).tps == old(self).tps,
            final(self).world_send_rate == old(self).world_send_rate,
            final(self).last_player_time == old(self).last_player_time,
            final(self).last_world_send_time == old(self).last_world_send_time,
            final(self).running == old(self).running,
            final(self).always_running == old(self).always_running,
            final(self).owner == old(self).owner,
    {
        self.lag_time = 0;
        self.last_update_time = now;
        self.last_nspt = None;
    }

    /// Decides how many ticks this round runs. With players present the batch
    /// follows the pacing rule and is capped at `MAX_TICK_BATCH`; without them
    /// nothing runs, and a plot that is not pinned stops after being idle for
    /// `IDLE_UNLOAD_SECS`.
    pub fn plan_ticks(&mut self, now: u64) -> (batch: u64)
        requires
            old(self).wf(),
        ensures
            final(self).wf(),
            old(self).players@.len() > 0 ==> {
                let dt = if now >= old(self).last_update_time { now - old(self).last_update_time } else { 0 };
                let max_batch = max_batch_spec(old(self).world_send_rate, old(self).last_nspt);
                let (n, lag) = batch_spec(old(self).tps, old(self).lag_time, dt as u64, max_batch as u64);
                &&& batch as int == if n <= MAX_TICK_BATCH { n } else { MAX_TICK_BATCH as int }
                &&& final(self).lag_time as int == lag
                &&& final(self).last_update_time == now
                &&& final(self).last_player_time == now
                &&& final(self).running == old(self).running
            },
            old(self).players@.len() == 0 ==> {
                let idle = if now >= old(self).last_player_time { now - old(self).last_player_time } else { 0 };
                &&& batch == 0
                &&& final(self).running == (old(self).running && !should_unload_spec(false, old(self).always_running, idle as u64))
                &&& final(self).lag_time == old(self).lag_time
                &&& final(self).last_update_time == old(self).last_update_time
                &&& final(self).last_player_time == old(self).last_player_time
            },
            final(self).world == old(self).world,
            final(self).players@ == old(self).players@,
            final(self).backend == old(self).backend,
            final(self).tps == old(self).tps,
            final(self).world_send_rate == old(self).world_send_rate,
            final(self).last_nspt == old(self).last_nspt,
            final(self).last_world_send_time == old(self).last_world_send_time,
            final(self).always_running == old(self).always_running,
            final(self).owner == old(self).owner,
    {
        if self.players.len() == 0 {
            let idle = now.saturating_sub(self.last_player_time);
            if !self.always_running && idle > IDLE_UNLOAD_SECS * NANOS_PER_SEC {
                self.running = false;
            }
            return 0;
        }
        self.last_player_time = now;
        let max_batch = max_batch_size(self.world_send_rate, self.last_nspt);
        let dt = now.saturating_sub(self.last_update_time);
        let (n, lag) = batch_size(self.tps, self.lag_time, dt, max_batch);
        self.lag_time = lag;
        self.last_update_time = now;
        if n <= MAX_TICK_BATCH { n } else { MAX_TICK_BATCH }
    }

    /// Records how long the last batch took per tick.
    pub fn record_batch(&mut self, elapsed: u64, ticks_completed: u64)
        requires
            ticks_completed > 0,
        ensures
            final(self).last_nspt == Some((elapsed / ticks_completed) as u64),
            final(self).world == old(self).world,
            final(self).players@ == old(self).players@,
            final(self).backend == old(self).backend,
            final(self).lag_time == old(self).lag_time,
            final(self).last_update_time == old(self).last_update_time,
            final(self).last_player_time == old(self).last_player_time,
            final(self).last_world_send_time == old(self).last_world_send_time,
            final(self).running == old(self).running,
            final(self).tps == old(self).tps,
            final(self).world_send_rate == old(self).world_send_rate,
    {
        self.last_nspt = Some(elapsed / ticks_completed);
    }

    /// Whether the queued block changes go out to the clients now: more than one
    /// send period has passed since the last send, which then counts as now.
    pub fn world_send_due(&mut self, now: u64) -> (due: bool)
        requires
            old(self).wf(),
        ensures
            final(self).wf(),
            due == (now >= old(self).last_world_send_time && now - old(self).last_world_send_time
                > NANOS_PER_SEC as int / old(self).world_send_rate as int),
            final(self).last_world_send_time == if due { now } else { old(self).last_world_send_time },
            final(self).world == old(self).world,
            final(self).players@ == old(self).players@,
            final(self).backend == old(self).backend,
            final(self).lag_time == old(self).lag_time,
            final(self).last_update_time == old(self).last_update_time,
            final(self).last_player_time == old(self).last_player_time,
            final(self).last_nspt == old(self).last_nspt,
            final(self).running == old(self).running,
            final(self).tps == old(self).tps,
            final(self).world_send_rate == old(self).world_send_rate,
    {
        let period = NANOS_PER_SEC / self.world_send_rate as u64;
        if now >= self.last_world_send_time && now - self.last_world_send_time > period {
            self.last_world_send_time = now;
            true
        } else {
            false
        }
    }

    /// One interpreter tick: the queue advances and the entries that fall due
    /// come out in firing order. While a backend runs, the backend keeps time and
    /// nothing comes out.
    pub fn tick(&mut self) -> (due: Vec<TickEntry>)
        requires
            old(self).wf(),
        ensures
            final(self).wf(),
            old(self).backend == BackendState::Idle ==> due@ == fired(old(self).world.to_be_ticked@)
                && final(self).world.to_be_ticked@ == still_waiting(old(self).world.to_be_ticked@),
            old(self).backend != BackendState::Idle ==> due@.len() == 0 && final(self).world.to_be_ticked@
                == old(self).world.to_be_ticked@,
            forall|q: BlockPos| #[trigger] final(self).world.block_at(q) == old(self).world.block_at(q),
            final(self).world.chunks@ == old(self).world.chunks@,
            final(self).players@ == old(self).players@,
            final(self).backend == old(self).backend,
    {
        match self.backend {
            BackendState::Active { .. } => Vec::new(),
            BackendState::Idle => self.world.take_due_ticks(),
        }
    }

    /// Begins a backend compilation: the region is the initiator's selection when
    /// asked for and both corners are set, else the whole plot; the pending ticks
    /// are handed over. The backend becomes active once it reports back.
    pub fn start_backend(&mut self, selection: bool, variant: BackendVariant, player_idx: usize, now: u64) -> (start: BackendStart)
        requires
            old(self).wf(),
            player_idx < old(self).players@.len(),
        ensures
            final(self).wf(),
            ({
                let p = old(self).players@[player_idx as int];
                if selection && p.first_position.is_some() && p.second_position.is_some() {
                    start.bounds == (p.first_position.unwrap(), p.second_position.unwrap())
                } else {
                    start.bounds == old(self).world.corners_spec()
                }
            }),
            start.ticks@ == old(self).world.to_be_ticked@,
            start.needs_accelerator_config == (variant == BackendVariant::Fpga),
            final(self).world.to_be_ticked@.len() == 0,
            final(self).world.chunks@ == old(self).world.chunks@,
            final(self).backend == old(self).backend,
            final(self).players@ == old(self).players@,
            final(self).lag_time == 0,
            final(self).last_update_time == now,
            final(self).last_nspt.is_none(),
    {
        let p = &self.players[player_idx];
        let bounds = if selection && p.first_position.is_some() && p.second_position.is_some() {
            (p.first_position.unwrap(), p.second_position.unwrap())
        } else {
            self.world.get_corners()
        };
        let ticks = self.world.drain_ticks();
        self.reset_timings(now);
        BackendStart { bounds, ticks, needs_accelerator_config: variant == BackendVariant::Fpga }
    }

    /// A compiled backend has reported that it is ready; it runs the plot from now on.
    pub fn backend_ready(&mut self, io_only: bool)
        requires
            old(self).wf(),
            old(self).world.to_be_ticked@.len() == 0,
        ensures
            final(self).wf(),
            final(self).backend == (BackendState::Active { io_only }),
            final(self).world == old(self).world,
            final(self).players@ == old(self).players@,
    {
        self.backend = BackendState::Active { io_only };
    }

    /// Whether an active backend refuses edits other than inputs.
    pub fn is_io_only(&self) -> (r: bool)
        ensures
            r == (self.backend == BackendState::Active { io_only: true }),
    {
        match self.backend {
            BackendState::Active { io_only } => io_only,
            BackendState::Idle => false,
        }
    }

    /// Stops an active backend: the world takes the state that the backend
    /// reports as its last (`terminal`, applied in order), and the interpreter
    /// runs again. Without an active backend nothing changes.
    pub fn reset_backend(&mut self, terminal: &Vec<BlockChange>, now: u64)
        requires
            old(self).wf(),
        ensures
            final(self).wf(),
            final(self).backend == BackendState::Idle,
            old(self).backend == BackendState::Idle ==> final(self).world == old(self).world,
            old(self).backend != BackendState::Idle ==> backend_reset(*old(self), *final(self), terminal@, now),
            final(self).world.x == old(self).world.x,
            final(self).world.z == old(self).world.z,
            final(self).players@ == old(self).players@,
            final(self).owner == old(self).owner,
    {
        if self.backend == BackendState::Idle {
            return;
        }
        self.world.apply_block_changes(terminal);
        self.backend = BackendState::Idle;
        self.reset_timings(now);
    }

    /// Whether some player on the ground stands in `pos`.
    pub fn are_players_on_block(&self, pos: BlockPos) -> (r: bool)
        ensures
            r == exists|i: int|
                0 <= i < self.players@.len() && (#[trigger] self.players@[i]).pos == pos
                    && self.players@[i].on_ground,
    {
        let mut i: usize = 0;
        while i < self.players.len()
            invariant
                0 <= i <= self.players@.len(),
                forall|j: int| 0 <= j < i ==> !((#[trigger] self.players@[j]).pos == pos && self.players@[j].on_ground),
            decreases self.players@.len() - i,
        {
            if self.players[i].pos == pos && self.players[i].on_ground {
                return true;
            }
            i += 1;
        }
        false
    }

    /// Powers or releases the pressure plate at `pos`. An active backend takes the
    /// change; otherwise the world does, if the block there is a pressure plate.
    pub fn set_pressure_plate(&mut self, pos: BlockPos, powered: bool) -> (r: Option<PlateChange>)
        requires
            old(self).wf(),
        ensures
            final(self).wf(),
            old(self).backend != BackendState::Idle ==> r == Some(PlateChange { pos, powered, by_backend: true })
                && final(self).world == old(self).world,
            old(self).backend == BackendState::Idle ==> if block_of_id(old(self).world.block_at(pos)) matches Block::StonePressurePlate { .. } {
                &&& r == Some(PlateChange { pos, powered, by_backend: false })
                &&& forall|q: BlockPos| #[trigger] final(self).world.block_at(q) == if q == pos {
                    id_of_block(Block::StonePressurePlate { powered })
                } else {
                    old(self).world.block_at(q)
                }
            } else {
                r.is_none() && final(self).world == old(self).world
            },
            final(self).world.to_be_ticked@ == old(self).world.to_be_ticked@,
            final(self).world.x == old(self).world.x,
            final(self).world.z == old(self).world.z,
            final(self).players@ == old(self).players@,
            final(self).backend == old(self).backend,
    {
        if self.backend != BackendState::Idle {
            return Some(PlateChange { pos, powered, by_backend: true });
        }
        let block = Block::from_id(self.world.get_block_raw(pos));
        match block {
            Block::StonePressurePlate { .. } => {
                let id = Block::StonePressurePlate { powered }.get_id();
                self.world.set_block_raw(pos, id);
                Some(PlateChange { pos, powered, by_backend: false })
            },
            _ => None,
        }
    }

    /// The pressure plates that a player's move from `old_pos` to `new_pos`
    /// changes: the plate left behind is released when nobody on the ground
    /// stands on it any more, and the plate stepped on is powered when the player
    /// is on the ground. The player's position is already `new_pos`.
    pub fn on_player_move(&mut self, player_idx: usize, old_pos: BlockPos, new_pos: BlockPos) -> (changes: Vec<PlateChange>)
        requires
            old(self).wf(),
            player_idx < old(self).players@.len(),
        ensures
            final(self).wf(),
            ({
                let left = block_of_id(old(self).world.block_at(old_pos)) == Block::StonePressurePlate { powered: true }
                    && !(exists|i: int| 0 <= i < old(self).players@.len() && (#[trigger] old(self).players@[i]).pos == old_pos
                        && old(self).players@[i].on_ground);
                let entered = block_of_id(old(self).world.block_at(new_pos)) == Block::StonePressurePlate { powered: false }
                    && old(self).players@[player_idx as int].on_ground;
                &&& changes@.len() == (if left { 1int } else { 0int }) + (if entered { 1int } else { 0int })
                &&& left ==> changes@[0].pos == old_pos && !changes@[0].powered
                &&& entered ==> changes@.last().pos == new_pos && changes@.last().powered
                &&& forall|k: int| 0 <= k < changes@.len() ==> (#[trigger] changes@[k]).by_backend == (old(self).backend != BackendState::Idle)
                &&& old(self).backend != BackendState::Idle ==> final(self).world == old(self).world
                &&& old(self).backend == BackendState::Idle ==> forall|q: BlockPos| #[trigger] final(self).world.block_at(q) == if left && q == old_pos {
                    id_of_block(Block::StonePressurePlate { powered: false })
                } else if entered && q == new_pos {
                    id_of_block(Block::StonePressurePlate { powered: true })
                } else {
                    old(self).world.block_at(q)
                }
            }),
            final(self).world.to_be_ticked@ == old(self).world.to_be_ticked@,
            final(self).players@ == old(self).players@,
            final(self).backend == old(self).backend,
    {
        let old_block = Block::from_id(self.world.get_block_raw(old_pos));
        let new_block = Block::from_id(self.world.get_block_raw(new_pos));
        let mut changes: Vec<PlateChange> = Vec::new();
        let ghost left = block_of_id(old(self).world.block_at(old_pos)) == Block::StonePressurePlate { powered: true }
            && !(exists|i: int| 0 <= i < old(self).players@.len() && (#[trigger] old(self).players@[i]).pos == old_pos
                && old(self).players@[i].on_ground);
        if old_block == (Block::StonePressurePlate { powered: true }) && !self.are_players_on_block(old_pos) {
            let c = self.set_pressure_plate(old_pos, false);
            assert(c.is_some());
            changes.push(c.unwrap());
        }
        let ghost mid = self.world;
        proof {
            if old(self).backend == BackendState::Idle {
                assert forall|q: BlockPos| #[trigger] mid.block_at(q) == if left && q == old_pos {
                    id_of_block(Block::StonePressurePlate { powered: false })
                } else {
                    old(self).world.block_at(q)
                } by {}
            }
        }
        if new_block == (Block::StonePressurePlate { powered: false }) && self.players[player_idx].on_ground {
            proof {
                if old(self).backend == BackendState::Idle && new_pos != old_pos {
                    assert(self.world.block_at(new_pos) == old(self).world.block_at(new_pos));
                }
            }
            let c = self.set_pressure_plate(new_pos, true);
            assert(c.is_some());
            changes.push(c.unwrap());
        }
        changes
    }
}

} // verus!
