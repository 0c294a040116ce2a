use vstd::prelude::*;

use crate::geometry::plot_of_block;
use crate::plot::{backend_reset, BackendState, Player, Plot};
use crate::server::{BroadcastMessage, PrivMessage};
use crate::view::{chunk_coord_ok, ViewUpdate, MAX_VIEW_DISTANCE};
use crate::world::BlockChange;

verus! {

/// What a plot worker does for one broadcast.
pub enum BroadcastEffect {
    /// Pass the message on to every player of the plot.
    Forward,
    /// The server stops: these players are saved and kicked, and the worker ends.
    Shutdown(Vec<Player>),
}

impl Plot {
    /// Every player's last chunk is in the range that the view logic takes.
    pub open spec fn players_wf(&self) -> bool {
        forall|i: int|
            0 <= i < self.players@.len() ==> chunk_coord_ok((#[trigger] self.players@[i]).last_chunk_x as int)
                && chunk_coord_ok(self.players@[i].last_chunk_z as int)
    }

    /// A player arrives: they join the list and their client loads the whole view.
    pub fn enter_plot(&mut self, player: Player, view_distance: i32) -> (u: ViewUpdate)
        requires
            old(self).players_wf(),
            0 <= view_distance <= MAX_VIEW_DISTANCE,
            chunk_coord_ok(player.last_chunk_x as int),
            chunk_coord_ok(player.last_chunk_z as int),
        ensures
            final(self).players_wf(),
            final(self).players@.len() == old(self).players@.len() + 1,
            forall|i: int| 0 <= i < old(self).players@.len() ==> #[trigger] final(self).players@[i] == old(self).players@[i],
            final(self).players@.last().uuid == player.uuid,
            final(self).players@.last().pos == player.pos,
            u.loads@.to_set() == crate::view::loaded_set(
                player.last_chunk_x as int,
                player.last_chunk_z as int,
                crate::geometry::chunk_of_block(player.pos.x as int),
                crate::geometry::chunk_of_block(player.pos.z as int),
                view_distance as int,
                true,
            ),
            final(self).world == old(self).world,
            final(self).backend == old(self).backend,
    {
        self.players.push(player);
        let idx = self.players.len() - 1;
        let u = self.update_view_pos_for_player(idx, view_distance, true);
        proof {
            let nx = crate::geometry::chunk_of_block(player.pos.x as int);
            assert(chunk_coord_ok(nx)) by (nonlinear_arith)
                requires nx == (player.pos.x as int) / 16;
            let nz = crate::geometry::chunk_of_block(player.pos.z as int);
            assert(chunk_coord_ok(nz)) by (nonlinear_arith)
                requires nz == (player.pos.z as int) / 16;
        }
        u
    }

    /// The player with `uuid` leaves; `None` when no such player is here.
    pub fn leave_plot(&mut self, uuid: u128) -> (r: Option<Player>)
        requires
            old(self).players_wf(),
        ensures
            final(self).players_wf(),
            match r {
                Some(p) => p.uuid == uuid && exists|i: int|
                    0 <= i < old(self).players@.len() && old(self).players@[i] == p
                        && final(self).players@ == old(self).players@.remove(i)
                        && forall|j: int| 0 <= j < i ==> (#[trigger] old(self).players@[j]).uuid != uuid,
                None => final(self).players@ == old(self).players@
                    && forall|j: int| 0 <= j < old(self).players@.len() ==> (#[trigger] old(self).players@[j]).uuid != uuid,
            },
            final(self).world == old(self).world,
            final(self).backend == old(self).backend,
    {
        let mut i: usize = 0;
        while i < self.players.len()
            invariant
                0 <= i <= self.players@.len(),
                self.players@ == old(self).players@,
                self.world == old(self).world,
                self.backend == old(self).backend,
                old(self).players_wf(),
                forall|j: int| 0 <= j < i ==> (#[trigger] self.players@[j]).uuid != uuid,
            decreases self.players@.len() - i,
        {
            if self.players[i].uuid == uuid {
                let ghost pre = self.players@;
                let p = self.players.remove(i);
                proof {
                    assert forall|k: int| 0 <= k < self.players@.len() implies chunk_coord_ok((#[trigger] self.players@[k]).last_chunk_x as int)
                        && chunk_coord_ok(self.players@[k].last_chunk_z as int) by {
                        if k < i {
                            assert(self.players@[k] == pre[k]);
                        } else {
                            assert(self.players@[k] == pre[k + 1]);
                        }
                    }
                    assert(pre[i as int] == p && self.players@ == pre.remove(i as int));
                }
                return Some(p);
            }
            i += 1;
        }
        None
    }

    /// Takes out the players who stand outside this plot, in order; the server
    /// routes them on.
    pub fn remove_oob_players(&mut self) -> (out: Vec<Player>)
        requires
            old(self).players_wf(),
        ensures
            final(self).players_wf(),
            final(self).players@ == split_by_plot(old(self).players@, old(self).world.x as int, old(self).world.z as int, true),
            out@ == split_by_plot(old(self).players@, old(self).world.x as int, old(self).world.z as int, false),
            final(self).world == old(self).world,
            final(self).backend == old(self).backend,
    {
        let mut kept: Vec<Player> = Vec::new();
        let mut out: Vec<Player> = Vec::new();
        let n = self.players.len();
        let mut k: usize = 0;
        let ghost orig = self.players@;
        while k < n
            invariant
                n == orig.len(),
                0 <= k <= n,
                self.world == old(self).world,
                self.backend == old(self).backend,
                self.players@ == orig.subrange(k as int, n as int),
                kept@ == split_by_plot(orig.subrange(0, k as int), self.world.x as int, self.world.z as int, true),
                out@ == split_by_plot(orig.subrange(0, k as int), self.world.x as int, self.world.z as int, false),
                forall|i: int| 0 <= i < orig.len() ==> chunk_coord_ok((#[trigger] orig[i]).last_chunk_x as int)
                    && chunk_coord_ok(orig[i].last_chunk_z as int),
                forall|i: int| 0 <= i < kept@.len() ==> chunk_coord_ok((#[trigger] kept@[i]).last_chunk_x as int)
                    && chunk_coord_ok(kept@[i].last_chunk_z as int),
            decreases n - k,
        {
            let p = self.players.remove(0);
            proof {
                assert(p == orig[k as int]);
                assert(self.players@ =~= orig.subrange(k + 1, n as int));
                assert(orig.subrange(0, k + 1).drop_last() =~= orig.subrange(0, k as int));
            }
            let (px, pz) = p.plot_pos();
            if px == self.world.x && pz == self.world.z {
                kept.push(p);
            } else {
                out.push(p);
            }
            k += 1;
        }
        proof {
            assert(orig.subrange(0, n as int) =~= orig);
        }
        self.players = kept;
        out
    }

    /// Takes out the players whose connection closed (`alive[i]` is false for
    /// player `i`), in order; the rest stay in order.
    pub fn remove_dc_players(&mut self, alive: &Vec<bool>) -> (gone: Vec<Player>)
        requires
            old(self).players_wf(),
            alive@.len() == old(self).players@.len(),
        ensures
            final(self).players_wf(),
            final(self).players@ == split_by_flag(old(self).players@, alive@, true),
            gone@ == split_by_flag(old(self).players@, alive@, false),
            final(self).world == old(self).world,
            final(self).backend == old(self).backend,
    {
        let mut kept: Vec<Player> = Vec::new();
        let mut gone: Vec<Player> = Vec::new();
        let n = self.players.len();
        let mut k: usize = 0;
        let ghost orig = self.players@;
        while k < n
            invariant
                n == orig.len(),
                n == alive@.len(),
                0 <= k <= n,
                self.world == old(self).world,
                self.backend == old(self).backend,
                self.players@ == orig.subrange(k as int, n as int),
                kept@ == split_by_flag(orig.subrange(0, k as int), alive@.subrange(0, k as int), true),
                gone@ == split_by_flag(orig.subrange(0, k as int), alive@.subrange(0, k as int), false),
                forall|i: int| 0 <= i < orig.len() ==> chunk_coord_ok((#[trigger] orig[i]).last_chunk_x as int)
                    && chunk_coord_ok(orig[i].last_chunk_z as int),
                forall|i: int| 0 <= i < kept@.len() ==> chunk_coord_ok((#[trigger] kept@[i]).last_chunk_x as int)
                    && chunk_coord_ok(kept@[i].last_chunk_z as int),
            decreases n - k,
        {
            let p = self.players.remove(0);
            proof {
                assert(p == orig[k as int]);
                assert(self.players@ =~= orig.subrange(k + 1, n as int));
                assert(alive@.subrange(0, k + 1).drop_last() =~= alive@.subrange(0, k as int));
                assert(orig.subrange(0, k + 1).drop_last() =~= orig.subrange(0, k as int));
            }
            if alive[k] {
                kept.push(p);
            } else {
                gone.push(p);
            }
            k += 1;
        }
        proof {
            assert(alive@.subrange(0, n as int) =~= alive@);
            assert(orig.subrange(0, n as int) =~= orig);
        }
        self.players = kept;
        gone
    }

    /// Handles one broadcast. On shutdown every player is taken out for saving,
    /// the plot is no longer pinned and the worker stops; anything else is passed
    /// on to the players.
    pub fn handle_broadcast(&mut self, msg: &BroadcastMessage) -> (e: BroadcastEffect)
        requires
            old(self).players_wf(),
        ensures
            final(self).players_wf(),
            match msg {
                BroadcastMessage::Shutdown => e matches BroadcastEffect::Shutdown(ps) && ps@ == old(self).players@
                    && final(self).players@.len() == 0 && !final(self).running && !final(self).always_running,
                _ => e matches BroadcastEffect::Forward && final(self).players@ == old(self).players@
                    && final(self).running == old(self).running && final(self).always_running == old(self).always_running,
            },
            final(self).world == old(self).world,
            final(self).backend == old(self).backend,
    {
        match msg {
            BroadcastMessage::Shutdown => {
                let mut players: Vec<Player> = Vec::new();
                players.append(&mut self.players);
                self.always_running = false;
                self.running = false;
                BroadcastEffect::Shutdown(players)
            },
            _ => BroadcastEffect::Forward,
        }
    }

    /// Handles one message from the server: the player enters; on a teleport,
    /// first to the position of the player here with the given name, if any.
    pub fn handle_priv_message(&mut self, msg: PrivMessage, view_distance: i32) -> (u: ViewUpdate)
        requires
            old(self).players_wf(),
            0 <= view_distance <= MAX_VIEW_DISTANCE,
            match msg {
                PrivMessage::PlayerEnterPlot(p) => chunk_coord_ok(p.last_chunk_x as int) && chunk_coord_ok(p.last_chunk_z as int),
                PrivMessage::PlayerTeleportOther(p, _) => chunk_coord_ok(p.last_chunk_x as int) && chunk_coord_ok(p.last_chunk_z as int),
            },
        ensures
            final(self).players_wf(),
            final(self).players@.len() == old(self).players@.len() + 1,
            forall|i: int| 0 <= i < old(self).players@.len() ==> #[trigger] final(self).players@[i] == old(self).players@[i],
            ({
                let (p, pos) = match msg {
                    PrivMessage::PlayerEnterPlot(p) => (p, p.pos),
                    PrivMessage::PlayerTeleportOther(p, name) => (p, match first_named(old(self).players@, name@) {
                        Some(i) => old(self).players@[i].pos,
                        None => p.pos,
                    }),
                };
                &&& final(self).players@.last().uuid == p.uuid
                &&& final(self).players@.last().pos == pos
                &&& u.loads@.to_set() == crate::view::loaded_set(
                    p.last_chunk_x as int,
                    p.last_chunk_z as int,
                    crate::geometry::chunk_of_block(pos.x as int),
                    crate::geometry::chunk_of_block(pos.z as int),
                    view_distance as int,
                    true,
                )
            }),
            final(self).world == old(self).world,
            final(self).backend == old(self).backend,
    {
        match msg {
            PrivMessage::PlayerEnterPlot(p) => {
                let ghost pos = p.pos;
                let u = self.enter_plot(p, view_distance);
                assert(self.players@.last().pos == pos);
                u
            },
            PrivMessage::PlayerTeleportOther(p, name) => {
                let mut p = p;
                match self.find_named(&name) {
                    Some(i) => {
                        p.pos = self.players[i].pos;
                    },
                    None => {},
                }
                self.enter_plot(p, view_distance)
            },
        }
    }

    /// The index of the first player called `name`.
    fn find_named(&self, name: &String) -> (r: Option<usize>)
        ensures
            match r {
                Some(i) => first_named(self.players@, name@) == Some(i as int) && i < self.players@.len(),
                None => first_named(self.players@, name@).is_none(),
            },
    {
        let mut i: usize = 0;
        while i < self.players.len()
            invariant
                0 <= i <= self.players@.len(),
                first_named(self.players@.subrange(0, i as int), name@).is_none(),
            decreases self.players@.len() - i,
        {
            proof {
                assert(self.players@.subrange(0, i + 1).drop_last() =~= self.players@.subrange(0, i as int));
            }
            if self.players[i].username == *name {
                proof {
                    lemma_first_named_extends(self.players@, name@, i as int + 1);
                }
                return Some(i);
            }
            i += 1;
        }
        proof {
            assert(self.players@.subrange(0, i as int) =~= self.players@);
        }
        None
    }

    /// Changes a player's game mode; the returned message tells the server.
    pub fn change_player_gamemode(&mut self, player_idx: usize, gamemode: crate::plot::Gamemode) -> (m: crate::server::Message)
        requires
            player_idx < old(self).players@.len(),
            old(self).players_wf(),
        ensures
            final(self).players_wf(),
            final(self).players@ == old(self).players@.update(
                player_idx as int,
                Player { gamemode, ..old(self).players@[player_idx as int] },
            ),
            m == crate::server::Message::PlayerUpdateGamemode(old(self).players@[player_idx as int].uuid, gamemode),
            final(self).world == old(self).world,
            final(self).backend == old(self).backend,
    {
        let player = &mut self.players[player_idx];
        player.gamemode = gamemode;
        let uuid = player.uuid;
        proof {
            assert forall|i: int| 0 <= i < self.players@.len() implies chunk_coord_ok((#[trigger] self.players@[i]).last_chunk_x as int)
                && chunk_coord_ok(self.players@[i].last_chunk_z as int) by {
                assert(i != player_idx ==> self.players@[i] == old(self).players@[i]);
            }
        }
        crate::server::Message::PlayerUpdateGamemode(uuid, gamemode)
    }

    /// Ends the worker, on a clean exit or after a crash: an active backend is
    /// reset first, the world taking the backend's last state (`terminal`, in
    /// order), and every player still here is handed back, in order, to be sent
    /// to `send_away_plot`.
    pub fn teardown(&mut self, terminal: &Vec<BlockChange>, now: u64) -> (evicted: Vec<Player>)
        requires
            old(self).wf(),
        ensures
            final(self).wf(),
            evicted@ == old(self).players@,
            final(self).players@.len() == 0,
            final(self).backend == BackendState::Idle,
            old(self).backend == BackendState::Idle ==> final(self).world == old(self).world,
            old(self).backend != BackendState::Idle ==> backend_reset(*old(self), *final(self), terminal@, now),
            final(self).world.x == old(self).world.x,
            final(self).world.z == old(self).world.z,
    {
        self.reset_backend(terminal, now);
        let mut players: Vec<Player> = Vec::new();
        players.append(&mut self.players);
        players
    }
}

/// The players of `s` that stand in plot `(x, z)` (`inside`), or the others, in order.
pub open spec fn split_by_plot(s: Seq<Player>, x: int, z: int, inside: bool) -> Seq<Player>
    decreases s.len(),
{
    if s.len() == 0 {
        Seq::empty()
    } else {
        let rest = split_by_plot(s.drop_last(), x, z, inside);
        let p = s.last();
        if (plot_of_block(p.pos.x as int) == x && plot_of_block(p.pos.z as int) == z) == inside {
            rest.push(p)
        } else {
            rest
        }
    }
}

/// The players of `s` whose flag in `flags` equals `keep`, in order.
pub open spec fn split_by_flag(s: Seq<Player>, flags: Seq<bool>, keep: bool) -> Seq<Player>
    decreases s.len(),
{
    if s.len() == 0 || flags.len() == 0 {
        Seq::empty()
    } else {
        let rest = split_by_flag(s.drop_last(), flags.drop_last(), keep);
        if flags.last() == keep {
            rest.push(s.last())
        } else {
            rest
        }
    }
}

/// The index of the first player called `name`.
pub open spec fn first_named(s: Seq<Player>, name: Seq<char>) -> Option<int>
    decreases s.len(),
{
    if s.len() == 0 {
        None
    } else {
        match first_named(s.drop_last(), name) {
            Some(i) => Some(i),
            None => if s.last().username@ == name { Some(s.len() - 1) } else { None },
        }
    }
}

proof fn lemma_first_named_extends(s: Seq<Player>, name: Seq<char>, n: int)
    requires
        0 <= n <= s.len(),
        first_named(s.subrange(0, n), name).is_some(),
    ensures
        first_named(s, name) == first_named(s.subrange(0, n), name),
    decreases s.len() - n,
{
    if n < s.len() {
        assert(s.subrange(0, n + 1).drop_last() =~= s.subrange(0, n));
        lemma_first_named_extends(s, name, n + 1);
    } else {
        assert(s.subrange(0, n) =~= s);
    }
}

} // verus!
