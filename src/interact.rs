use vstd::prelude::*;

use crate::blocks::{block_of_id, Block};
use crate::geometry::{in_plot_bounds, plot_of_block, BlockPos};
use crate::plot::{backend_reset, BackendState, Plot};
use crate::world::BlockChange;

verus! {

/// Told to a player who digs outside their plot.
pub const MSG_BREAK_OUTSIDE: &'static str = "Can't break blocks outside of plot";

/// Told to a player who uses a block outside their plot.
pub const MSG_INTERACT_OUTSIDE: &'static str = "Can't interact with blocks outside of plot";

/// Told to a player who edits a plot whose backend only takes inputs.
pub const MSG_IO_ONLY: &'static str = "This plot cannot be interacted with while redpiler is active with --io-only. To stop redpiler, run /redpiler reset.";

/// The permissions that an interaction asks about.
#[derive(Clone, Copy, Debug, PartialEq, Eq, Structural)]
pub struct Permissions {
    /// May set selection corners with the wand.
    pub selection_pos: bool,
    /// May edit plots that others own.
    pub interact_other: bool,
    /// May edit plots that nobody owns.
    pub interact_unowned: bool,
}

/// What the player holds in the hand used.
#[derive(Clone, Copy, Debug, PartialEq, Eq, Structural)]
pub enum HeldItem {
    Empty,
    Wand,
    Other,
}

/// How a dig ends.
#[derive(Clone, Copy, Debug, PartialEq, Eq, Structural)]
pub enum DigOutcome {
    /// Refused with `MSG_BREAK_OUTSIDE`; the block is sent back to the client
    /// and the world is unchanged.
    OutsidePlot,
    /// The wand set the first selection corner (`changed` when it moved); the
    /// block is sent back to the client.
    WandSelection { changed: bool },
    /// Refused for lack of permission; the block is sent back.
    NoPermission,
    /// Refused with `MSG_IO_ONLY`; the block is sent back.
    IoOnly,
    /// The block breaks; an active backend was reset first, the world taking
    /// its last state.
    Break { reset_backend: bool },
}

/// How a use of an item on a block ends.
#[derive(Clone, Copy, Debug, PartialEq, Eq, Structural)]
pub enum UseOutcome {
    /// Refused with `MSG_INTERACT_OUTSIDE`; the change is cancelled.
    OutsidePlot,
    /// The wand set the second selection corner; the change is cancelled.
    WandSelection { changed: bool },
    /// Refused for lack of permission; the change is cancelled.
    NoPermission,
    /// A lever or button goes to the active backend, which is not reset.
    BackendInput,
    /// Refused with `MSG_IO_ONLY`; the change is cancelled.
    IoOnly,
    /// The held item is used on the block (after an active backend was reset).
    UseItem { reset_backend: bool },
    /// The block itself is used (empty hand, not crouching; after an active
    /// backend was reset).
    UseBlock { reset_backend: bool },
    /// Nothing is used (empty hand while crouching); an active backend was reset.
    Nothing { reset_backend: bool },
}

impl UseOutcome {
    /// Whether the use went ahead after resetting an active backend.
    pub open spec fn resets_backend(self) -> bool {
        match self {
            UseOutcome::UseItem { reset_backend } => reset_backend,
            UseOutcome::UseBlock { reset_backend } => reset_backend,
            UseOutcome::Nothing { reset_backend } => reset_backend,
            _ => false,
        }
    }
}

/// Whether a player may edit a plot with the given owner.
pub open spec fn may_edit(owner: Option<u128>, uuid: u128, perms: Permissions) -> bool {
    match owner {
        Some(o) => o == uuid || perms.interact_other,
        None => perms.interact_unowned,
    }
}

/// Whether a block is a lever or a stone button.
pub open spec fn is_input(b: Block) -> bool {
    b matches Block::Lever { .. } || b matches Block::StoneButton { .. }
}

fn may_edit_exec(owner: Option<u128>, uuid: u128, perms: Permissions) -> (r: bool)
    ensures
        r == may_edit(owner, uuid, perms),
{
    match owner {
        Some(o) => o == uuid || perms.interact_other,
        None => perms.interact_unowned,
    }
}

impl Plot {
    /// Decides a player's dig at `pos`. Outside the plot nothing changes; the
    /// wand sets the first corner; without permission, or against an input-only
    /// backend, the dig is refused. Otherwise an active backend is reset, the
    /// world taking its last state `terminal`, and the caller breaks the block.
    pub fn handle_player_digging(
        &mut self,
        player_idx: usize,
        pos: BlockPos,
        held: HeldItem,
        perms: Permissions,
        terminal: &Vec<BlockChange>,
        now: u64,
    ) -> (r: DigOutcome)
        requires
            player_idx < old(self).players@.len(),
            old(self).wf(),
        ensures
            final(self).wf(),
            ({
                let p = old(self).players@[player_idx as int];
                let inside = plot_of_block(pos.x as int) == old(self).world.x && plot_of_block(pos.z as int) == old(self).world.z;
                if !inside {
                    r == DigOutcome::OutsidePlot
                } else if held == HeldItem::Wand && perms.selection_pos {
                    r == (DigOutcome::WandSelection { changed: p.first_position != Some(pos) })
                } else if !may_edit(old(self).owner, p.uuid, perms) {
                    r == DigOutcome::NoPermission
                } else if old(self).backend == (BackendState::Active { io_only: true }) {
                    r == DigOutcome::IoOnly
                } else {
                    r == (DigOutcome::Break { reset_backend: old(self).backend != BackendState::Idle })
                }
            }),
            final(self).players@.len() == old(self).players@.len(),
            forall|i: int| 0 <= i < old(self).players@.len() && i != player_idx ==> #[trigger] final(self).players@[i] == old(self).players@[i],
            final(self).players@[player_idx as int].first_position == if r matches DigOutcome::WandSelection { .. } {
                Some(pos)
            } else {
                old(self).players@[player_idx as int].first_position
            },
            final(self).players@[player_idx as int].second_position == old(self).players@[player_idx as int].second_position,
            final(self).players@[player_idx as int].pos == old(self).players@[player_idx as int].pos,
            final(self).players@[player_idx as int].uuid == old(self).players@[player_idx as int].uuid,
            final(self).players@[player_idx as int].last_chunk_x == old(self).players@[player_idx as int].last_chunk_x,
            final(self).players@[player_idx as int].last_chunk_z == old(self).players@[player_idx as int].last_chunk_z,
            r == (DigOutcome::Break { reset_backend: true }) ==> backend_reset(*old(self), *final(self), terminal@, now),
            r != (DigOutcome::Break { reset_backend: true }) ==> final(self).world == old(self).world
                && final(self).backend == old(self).backend,
    {
        if !in_plot_bounds(self.world.x, self.world.z, pos.x, pos.z) {
            return DigOutcome::OutsidePlot;
        }
        if held == HeldItem::Wand && perms.selection_pos {
            let changed = self.players[player_idx].first_position != Some(pos);
            let player = &mut self.players[player_idx];
            player.first_position = Some(pos);
            return DigOutcome::WandSelection { changed };
        }
        if !may_edit_exec(self.owner, self.players[player_idx].uuid, perms) {
            return DigOutcome::NoPermission;
        }
        if self.is_io_only() {
            return DigOutcome::IoOnly;
        }
        let reset = self.backend != BackendState::Idle;
        if reset {
            self.reset_backend(terminal, now);
        }
        DigOutcome::Break { reset_backend: reset }
    }

    /// Decides a player's use of `held` on the block at `pos`. Outside the plot
    /// and without permission the change is cancelled; the wand sets the second
    /// corner; with a backend active, levers and buttons go to the backend unless
    /// the player crouches, and anything else resets it (the world taking its
    /// last state `terminal`) or is refused when it only takes inputs.
    pub fn handle_use_item(
        &mut self,
        player_idx: usize,
        pos: BlockPos,
        held: HeldItem,
        perms: Permissions,
        terminal: &Vec<BlockChange>,
        now: u64,
    ) -> (r: UseOutcome)
        requires
            player_idx < old(self).players@.len(),
            old(self).wf(),
        ensures
            final(self).wf(),
            ({
                let p = old(self).players@[player_idx as int];
                let inside = plot_of_block(pos.x as int) == old(self).world.x && plot_of_block(pos.z as int) == old(self).world.z;
                let active = old(self).backend != BackendState::Idle;
                let block = block_of_id(old(self).world.block_at(pos));
                if !inside {
                    r == UseOutcome::OutsidePlot
                } else if held == HeldItem::Wand && perms.selection_pos {
                    r == (UseOutcome::WandSelection { changed: p.second_position != Some(pos) })
                } else if !may_edit(old(self).owner, p.uuid, perms) {
                    r == UseOutcome::NoPermission
                } else if active && is_input(block) && !p.crouching {
                    r == UseOutcome::BackendInput
                } else if old(self).backend == (BackendState::Active { io_only: true }) {
                    r == UseOutcome::IoOnly
                } else if held != HeldItem::Empty {
                    r == (UseOutcome::UseItem { reset_backend: active })
                } else if !p.crouching {
                    r == (UseOutcome::UseBlock { reset_backend: active })
                } else {
                    r == (UseOutcome::Nothing { reset_backend: active })
                }
            }),
            final(self).players@.len() == old(self).players@.len(),
            forall|i: int| 0 <= i < old(self).players@.len() && i != player_idx ==> #[trigger] final(self).players@[i] == old(self).players@[i],
            final(self).players@[player_idx as int].second_position == if r matches UseOutcome::WandSelection { .. } {
                Some(pos)
            } else {
                old(self).players@[player_idx as int].second_position
            },
            final(self).players@[player_idx as int].first_position == old(self).players@[player_idx as int].first_position,
            final(self).players@[player_idx as int].pos == old(self).players@[player_idx as int].pos,
            final(self).players@[player_idx as int].uuid == old(self).players@[player_idx as int].uuid,
            final(self).players@[player_idx as int].last_chunk_x == old(self).players@[player_idx as int].last_chunk_x,
            final(self).players@[player_idx as int].last_chunk_z == old(self).players@[player_idx as int].last_chunk_z,
            r.resets_backend() ==> backend_reset(*old(self), *final(self), terminal@, now),
            !r.resets_backend() ==> final(self).world == old(self).world && final(self).backend == old(self).backend,
    {
        if !in_plot_bounds(self.world.x, self.world.z, pos.x, pos.z) {
            return UseOutcome::OutsidePlot;
        }
        if held == HeldItem::Wand && perms.selection_pos {
            let changed = self.players[player_idx].second_position != Some(pos);
            let player = &mut self.players[player_idx];
            player.second_position = Some(pos);
            return UseOutcome::WandSelection { changed };
        }
        if !may_edit_exec(self.owner, self.players[player_idx].uuid, perms) {
            return UseOutcome::NoPermission;
        }
        let active = self.backend != BackendState::Idle;
        let crouching = self.players[player_idx].crouching;
        if active {
            let block = Block::from_id(self.world.get_block_raw(pos));
            let input = match block {
                Block::Lever { .. } => true,
                Block::StoneButton { .. } => true,
                _ => false,
            };
            if input && !crouching {
                return UseOutcome::BackendInput;
            }
            if self.is_io_only() {
                return UseOutcome::IoOnly;
            }
        }
        if active {
            self.reset_backend(terminal, now);
        }
        if held != HeldItem::Empty {
            UseOutcome::UseItem { reset_backend: active }
        } else if !crouching {
            UseOutcome::UseBlock { reset_backend: active }
        } else {
            UseOutcome::Nothing { reset_backend: active }
        }
    }
}

} // verus!
