use vstd::prelude::*;

use crate::plot::{duplicate_properties, Gamemode, Player, PlayerProperty};
use crate::text::{is_prefix, lower_of, lowercase, replace_all, replaced, starts_with};

verus! {

/// Told to a teleporting player whose target is not online.
pub const MSG_PLAYER_NOT_FOUND: &'static str = "Player not found!";

/// Told to a teleporting player whose target's plot is not running.
pub const MSG_PLOT_NOT_LOADED: &'static str = "Their plot wasn't loaded. How did this happen??";

/// What every plot learns of a player who joins.
#[derive(Clone)]
pub struct PlayerJoinInfo {
    pub username: String,
    pub uuid: u128,
    pub gamemode: Gamemode,
    pub properties: Vec<PlayerProperty>,
}

/// Sent from a plot worker to the server.
pub enum Message {
    /// A player said something: their uuid, name and raw message.
    ChatInfo(u128, String, String),
    /// A player finished logging in.
    PlayerJoined(Player),
    /// A player disconnected.
    PlayerLeft(u128),
    /// A player walked out of their plot.
    PlayerLeavePlot(Player),
    /// A player asked to be taken to another player, named by a prefix.
    PlayerTeleportOther(Player, String),
    /// A player changed game mode.
    PlayerUpdateGamemode(u128, Gamemode),
    /// A plot worker stopped.
    PlotUnload(i32, i32),
    /// Add a player, by uuid and name, to the whitelist.
    WhitelistAdd(u128, String),
    /// Remove a player, by uuid, from the whitelist.
    WhitelistRemove(u128),
    /// Stop the server.
    Shutdown,
}

/// Sent from the server to every plot worker.
#[derive(Clone)]
pub enum BroadcastMessage {
    /// A chat line, already put in the server's chat format.
    Chat(u128, String),
    PlayerJoinedInfo(PlayerJoinInfo),
    PlayerLeft(u128),
    PlayerUpdateGamemode(u128, Gamemode),
    Shutdown,
}

/// Sent from the server to one plot worker: a player moves in.
pub enum PrivMessage {
    PlayerEnterPlot(Player),
    PlayerTeleportOther(Player, String),
}

/// Where the server hands a player on to.
pub enum Delivery {
    /// Start the worker of plot `(x, z)`, with the player as its first occupant.
    Spawn { x: i32, z: i32, player: Player },
    /// Send to the running worker of plot `(x, z)`.
    Send { x: i32, z: i32, message: PrivMessage },
}

/// A reply to whoever changed the whitelist.
#[derive(Debug, PartialEq, Eq)]
pub enum WhitelistReply {
    Added(String),
    Removed(String),
    NotWhitelisted,
    Disabled,
}

/// What the server does for one message, in this order: record the user, tell
/// a player something, broadcast, hand a player on, reply about the whitelist,
/// and, on shutdown, wait until every plot has unloaded.
pub struct Dispatch {
    pub ensure_user: Option<(u128, String)>,
    pub tell: Option<(u128, &'static str)>,
    pub broadcast: Option<BroadcastMessage>,
    pub delivery: Option<Delivery>,
    pub whitelist_replies: Vec<WhitelistReply>,
    pub await_unloads: bool,
}

/// What the server knows of an online player.
pub struct PlayerListEntry {
    pub uuid: u128,
    pub plot_x: i32,
    pub plot_z: i32,
    pub username: String,
    pub properties: Vec<PlayerProperty>,
    pub gamemode: Gamemode,
}

/// A whitelisted player.
pub struct WhitelistEntry {
    pub uuid: u128,
    pub name: String,
}

/// The coordinator: who is online, which plots run, and the whitelist.
pub struct MinecraftServer {
    pub online_players: Vec<PlayerListEntry>,
    pub running_plots: Vec<(i32, i32)>,
    pub whitelist: Option<Vec<WhitelistEntry>>,
    /// Chat template with `{username}` and `{message}`.
    pub chat_format: String,
}

/// What the router keeps of an online player: their plot, name and game mode.
pub open spec fn info(e: PlayerListEntry) -> (i32, i32, Seq<char>, Gamemode) {
    (e.plot_x, e.plot_z, e.username@, e.gamemode)
}

/// The online players by uuid.
pub open spec fn online_map(s: Seq<PlayerListEntry>) -> Map<u128, (i32, i32, Seq<char>, Gamemode)>
    decreases s.len(),
{
    if s.len() == 0 {
        Map::empty()
    } else {
        online_map(s.drop_last()).insert(s.last().uuid, info(s.last()))
    }
}

/// No uuid is listed twice.
pub open spec fn unique_uuids(s: Seq<PlayerListEntry>) -> bool {
    forall|i: int, j: int| 0 <= i < j < s.len() ==> (#[trigger] s[i]).uuid != (#[trigger] s[j]).uuid
}

proof fn lemma_online_map(s: Seq<PlayerListEntry>)
    requires
        unique_uuids(s),
    ensures
        forall|u: u128| online_map(s).contains_key(u) <==> exists|i: int| 0 <= i < s.len() && (#[trigger] s[i]).uuid == u,
        forall|i: int| 0 <= i < s.len() ==> online_map(s)[(#[trigger] s[i]).uuid] == info(s[i]),
    decreases s.len(),
{
    if s.len() > 0 {
        let t = s.drop_last();
        assert(unique_uuids(t));
        lemma_online_map(t);
        assert forall|u: u128| online_map(s).contains_key(u) <==> exists|i: int| 0 <= i < s.len() && (#[trigger] s[i]).uuid == u by {
            if online_map(t).contains_key(u) {
                let i = choose|i: int| 0 <= i < t.len() && (#[trigger] t[i]).uuid == u;
                assert(s[i].uuid == u);
            }
            if exists|i: int| 0 <= i < s.len() && (#[trigger] s[i]).uuid == u {
                let i = choose|i: int| 0 <= i < s.len() && (#[trigger] s[i]).uuid == u;
                if i < t.len() {
                    assert(t[i].uuid == u);
                }
            }
        }
        assert forall|i: int| 0 <= i < s.len() implies online_map(s)[(#[trigger] s[i]).uuid] == info(s[i]) by {
            if i < t.len() {
                assert(t[i] == s[i]);
                assert(s[i].uuid != s[s.len() - 1].uuid);
            }
        }
    }
}

/// Two unique lists with the same entries by uuid give the same map.
proof fn lemma_online_map_eq(s: Seq<PlayerListEntry>, m: Map<u128, (i32, i32, Seq<char>, Gamemode)>)
    requires
        unique_uuids(s),
        forall|u: u128| m.contains_key(u) <==> exists|i: int| 0 <= i < s.len() && (#[trigger] s[i]).uuid == u,
        forall|i: int| 0 <= i < s.len() ==> m[(#[trigger] s[i]).uuid] == info(s[i]),
    ensures
        online_map(s) == m,
{
    lemma_online_map(s);
    assert forall|u: u128| #[trigger] online_map(s).contains_key(u) implies online_map(s)[u] == m[u] by {
        let i = choose|i: int| 0 <= i < s.len() && (#[trigger] s[i]).uuid == u;
        assert(online_map(s)[s[i].uuid] == info(s[i]));
    }
    assert(online_map(s) =~= m);
}

/// The online map after pointing `uuid`'s entry, if any, at plot `(x, z)`.
pub open spec fn moved(
    m: Map<u128, (i32, i32, Seq<char>, Gamemode)>,
    uuid: u128,
    x: i32,
    z: i32,
) -> Map<u128, (i32, i32, Seq<char>, Gamemode)> {
    if m.contains_key(uuid) {
        m.insert(uuid, (x, z, m[uuid].2, m[uuid].3))
    } else {
        m
    }
}

/// The running plots after routing `p`: its plot is added when it was not running.
pub open spec fn after_route(running: Seq<(i32, i32)>, p: Player) -> Seq<(i32, i32)> {
    if running.contains(plot_of(p)) {
        running
    } else {
        running.push(plot_of(p))
    }
}

/// `post` is `pre` without its first entry `xz`, the others in order; or `pre`
/// itself when `xz` is not there.
pub open spec fn unloaded(pre: Seq<(i32, i32)>, post: Seq<(i32, i32)>, xz: (i32, i32)) -> bool {
    if pre.contains(xz) {
        exists|i: int|
            0 <= i < pre.len() && pre[i] == xz && post == pre.remove(i) && forall|j: int| 0 <= j < i ==> pre[j] != xz
    } else {
        post == pre
    }
}

/// The plot that holds a player, as `i32` coordinates.
pub open spec fn plot_of(p: Player) -> (i32, i32) {
    (p.plot_pos_spec().0 as i32, p.plot_pos_spec().1 as i32)
}

/// Where a player goes: the running worker of their plot, or a new one.
pub open spec fn routed(d: Delivery, running: Seq<(i32, i32)>, p: Player) -> bool {
    let (x, z) = plot_of(p);
    if running.contains((x, z)) {
        d == (Delivery::Send { x, z, message: PrivMessage::PlayerEnterPlot(p) })
    } else {
        d == (Delivery::Spawn { x, z, player: p })
    }
}

/// The player that a delivery carries, and the plot it goes to.
pub open spec fn carried(d: Delivery) -> (Player, int, int) {
    match d {
        Delivery::Spawn { x, z, player } => (player, x as int, z as int),
        Delivery::Send { x, z, message } => match message {
            PrivMessage::PlayerEnterPlot(p) => (p, x as int, z as int),
            PrivMessage::PlayerTeleportOther(p, _) => (p, x as int, z as int),
        },
    }
}

/// A player handed to the router is delivered exactly once, and to the plot
/// that holds the player's position.
pub proof fn lemma_routing_delivers_to_own_plot(d: Delivery, running: Seq<(i32, i32)>, p: Player)
    requires
        routed(d, running, p),
    ensures
        carried(d) == (p, p.plot_pos_spec().0, p.plot_pos_spec().1),
{
    let (x, z) = plot_of(p);
    crate::geometry::lemma_plot_of_block_bounds(p.pos.x as int);
    crate::geometry::lemma_plot_of_block_bounds(p.pos.z as int);
}

/// The chat line for `message` from `username` in `format`.
pub open spec fn chat_line(format: Seq<char>, username: Seq<char>, message: Seq<char>) -> Seq<char> {
    replaced(replaced(format, "{username}"@, username), "{message}"@, message)
}

/// The index of the first online player whose lower-case name starts with `prefix`.
pub open spec fn first_name_match(s: Seq<PlayerListEntry>, prefix: Seq<char>) -> Option<int>
    decreases s.len(),
{
    if s.len() == 0 {
        None
    } else {
        match first_name_match(s.drop_last(), prefix) {
            Some(i) => Some(i),
            None => if is_prefix(prefix, lower_of(s.last().username@)) {
                Some(s.len() - 1)
            } else {
                None
            },
        }
    }
}

impl PlayerListEntry {
    pub fn duplicate(&self) -> (r: PlayerListEntry)
        ensures
            info(r) == info(*self),
            r.uuid == self.uuid,
            r.properties@ == self.properties@,
    {
        PlayerListEntry {
            uuid: self.uuid,
            plot_x: self.plot_x,
            plot_z: self.plot_z,
            username: self.username.clone(),
            properties: duplicate_properties(&self.properties),
            gamemode: self.gamemode,
        }
    }
}

impl MinecraftServer {
    /// Running plots are listed once and online players once each.
    pub open spec fn wf(&self) -> bool {
        &&& self.running_plots@.no_duplicates()
        &&& unique_uuids(self.online_players@)
    }

    /// The online players by uuid.
    pub open spec fn online(&self) -> Map<u128, (i32, i32, Seq<char>, Gamemode)> {
        online_map(self.online_players@)
    }

    /// A server whose spawn plot `(0, 0)` runs and that has nobody online.
    pub fn new(whitelist: Option<Vec<WhitelistEntry>>, chat_format: String) -> (r: MinecraftServer)
        ensures
            r.wf(),
            r.running_plots@ == seq![(0i32, 0i32)],
            r.online_players@.len() == 0,
            r.whitelist == whitelist,
            r.chat_format == chat_format,
    {
        let mut running_plots: Vec<(i32, i32)> = Vec::new();
        running_plots.push((0, 0));
        MinecraftServer { online_players: Vec::new(), running_plots, whitelist, chat_format }
    }

    fn find_online(&self, uuid: u128) -> (r: Option<usize>)
        ensures
            match r {
                Some(i) => i < self.online_players@.len() && self.online_players@[i as int].uuid == uuid,
                None => forall|i: int| 0 <= i < self.online_players@.len() ==> (#[trigger] self.online_players@[i]).uuid != uuid,
            },
    {
        let mut i: usize = 0;
        while i < self.online_players.len()
            invariant
                0 <= i <= self.online_players@.len(),
                forall|j: int| 0 <= j < i ==> (#[trigger] self.online_players@[j]).uuid != uuid,
            decreases self.online_players@.len() - i,
        {
            if self.online_players[i].uuid == uuid {
                return Some(i);
            }
            i += 1;
        }
        None
    }

    fn find_plot(&self, x: i32, z: i32) -> (r: Option<usize>)
        ensures
            match r {
                Some(i) => i < self.running_plots@.len() && self.running_plots@[i as int] == (x, z)
                    && forall|j: int| 0 <= j < i ==> self.running_plots@[j] != (x, z),
                None => !self.running_plots@.contains((x, z)),
            },
    {
        let mut i: usize = 0;
        while i < self.running_plots.len()
            invariant
                0 <= i <= self.running_plots@.len(),
                forall|j: int| 0 <= j < i ==> self.running_plots@[j] != (x, z),
            decreases self.running_plots@.len() - i,
        {
            if self.running_plots[i].0 == x && self.running_plots[i].1 == z {
                return Some(i);
            }
            i += 1;
        }
        None
    }

    /// The player list that a joining player is sent: everyone online, in
    /// order, then the joining player, each as uuid, name and game mode.
    pub fn player_list_for(&self, joining: &Player) -> (r: Vec<(u128, String, Gamemode)>)
        ensures
            r@.len() == self.online_players@.len() + 1,
            forall|i: int| 0 <= i < self.online_players@.len() ==> {
                let e = #[trigger] self.online_players@[i];
                r@[i].0 == e.uuid && r@[i].1@ == e.username@ && r@[i].2 == e.gamemode
            },
            r@.last().0 == joining.uuid,
            r@.last().1@ == joining.username@,
            r@.last().2 == joining.gamemode,
    {
        let mut r: Vec<(u128, String, Gamemode)> = Vec::new();
        let mut i: usize = 0;
        while i < self.online_players.len()
            invariant
                0 <= i <= self.online_players@.len(),
                r@.len() == i,
                forall|j: int| 0 <= j < i ==> {
                    let e = #[trigger] self.online_players@[j];
                    r@[j].0 == e.uuid && r@[j].1@ == e.username@ && r@[j].2 == e.gamemode
                },
            decreases self.online_players@.len() - i,
        {
            let e = &self.online_players[i];
            r.push((e.uuid, e.username.clone(), e.gamemode));
            i += 1;
        }
        r.push((joining.uuid, joining.username.clone(), joining.gamemode));
        r
    }

    /// Whether the worker of plot `(x, z)` runs.
    pub fn plot_running(&self, x: i32, z: i32) -> (r: bool)
        ensures
            r == self.running_plots@.contains((x, z)),
    {
        self.find_plot(x, z).is_some()
    }

    /// Replaces the online entry with `e`'s uuid, or adds `e`.
    fn put_online(&mut self, e: PlayerListEntry)
        requires
            old(self).wf(),
        ensures
            final(self).wf(),
            final(self).online() == old(self).online().insert(e.uuid, info(e)),
            final(self).running_plots@ == old(self).running_plots@,
            final(self).whitelist == old(self).whitelist,
            final(self).chat_format == old(self).chat_format,
    {
        let ghost pre = self.online_players@;
        let ghost uuid = e.uuid;
        let ghost info_e = info(e);
        proof {
            lemma_online_map(pre);
        }
        let found = self.find_online(e.uuid);
        let ghost idx: int = match found {
            Some(i) => i as int,
            None => pre.len() as int,
        };
        match found {
            Some(i) => {
                self.online_players.set(i, e);
            },
            None => {
                self.online_players.push(e);
            },
        }
        proof {
            let s = self.online_players@;
            assert(s.len() == if idx < pre.len() { pre.len() } else { pre.len() + 1 });
            assert(s[idx].uuid == uuid && info(s[idx]) == info_e);
            assert(forall|k: int| 0 <= k < s.len() && k != idx ==> #[trigger] s[k] == pre[k]);
            assert(idx < pre.len() ==> pre[idx].uuid == uuid);
            assert(idx == pre.len() ==> forall|k: int| 0 <= k < pre.len() ==> (#[trigger] pre[k]).uuid != uuid);
            assert forall|a: int, b: int| 0 <= a < b < s.len() implies (#[trigger] s[a]).uuid != (#[trigger] s[b]).uuid by {
                if a != idx && b != idx {
                    assert(s[a] == pre[a] && s[b] == pre[b]);
                } else if a == idx {
                    assert(s[b] == pre[b]);
                    if idx < pre.len() {
                        assert(pre[a].uuid != pre[b].uuid);
                    }
                } else {
                    assert(s[a] == pre[a]);
                    if idx < pre.len() {
                        assert(pre[a].uuid != pre[b].uuid);
                    }
                }
            }
            let m = online_map(pre).insert(uuid, info_e);
            assert forall|u: u128| m.contains_key(u) <==> exists|i: int| 0 <= i < s.len() && (#[trigger] s[i]).uuid == u by {
                if u == uuid {
                    assert(s[idx].uuid == u);
                } else {
                    if online_map(pre).contains_key(u) {
                        let i = choose|i: int| 0 <= i < pre.len() && (#[trigger] pre[i]).uuid == u;
                        assert(i != idx);
                        assert(s[i].uuid == u);
                    }
                    if exists|i: int| 0 <= i < s.len() && (#[trigger] s[i]).uuid == u {
                        let i = choose|i: int| 0 <= i < s.len() && (#[trigger] s[i]).uuid == u;
                        assert(i != idx);
                        assert(pre[i].uuid == u);
                    }
                }
            }
            assert forall|i: int| 0 <= i < s.len() implies m[(#[trigger] s[i]).uuid] == info(s[i]) by {
                if i != idx {
                    assert(s[i] == pre[i]);
                    assert(online_map(pre)[pre[i].uuid] == info(pre[i]));
                }
            }
            lemma_online_map_eq(s, m);
        }
    }

    /// Points a player's online entry, if any, at plot `(x, z)`.
    pub fn update_player_entry(&mut self, uuid: u128, x: i32, z: i32)
        requires
            old(self).wf(),
        ensures
            final(self).wf(),
            final(self).online() == if old(self).online().contains_key(uuid) {
                old(self).online().insert(uuid, (x, z, old(self).online()[uuid].2, old(self).online()[uuid].3))
            } else {
                old(self).online()
            },
            final(self).running_plots@ == old(self).running_plots@,
            final(self).whitelist == old(self).whitelist,
            final(self).chat_format == old(self).chat_format,
    {
        proof {
            lemma_online_map(self.online_players@);
        }
        match self.find_online(uuid) {
            Some(i) => {
                let old_entry = self.online_players[i].duplicate();
                let e = PlayerListEntry { plot_x: x, plot_z: z, ..old_entry };
                self.put_online(e);
            },
            None => {},
        }
    }

    /// Forgets plot `(x, z)`; a later entry starts its worker again.
    pub fn handle_plot_unload(&mut self, x: i32, z: i32)
        requires
            old(self).wf(),
        ensures
            final(self).wf(),
            unloaded(old(self).running_plots@, final(self).running_plots@, (x, z)),
            final(self).running_plots@.to_set() == old(self).running_plots@.to_set().remove((x, z)),
            final(self).online_players@ == old(self).online_players@,
            final(self).whitelist == old(self).whitelist,
            final(self).chat_format == old(self).chat_format,
    {
        let ghost pre = self.running_plots@;
        match self.find_plot(x, z) {
            Some(i) => {
                self.running_plots.remove(i);
                proof {
                    let s = self.running_plots@;
                    assert(s == pre.remove(i as int));
                    assert forall|a: int, b: int| 0 <= a < b < s.len() implies s[a] != s[b] by {
                        let a2 = if a < i { a } else { a + 1 };
                        let b2 = if b < i { b } else { b + 1 };
                        assert(s[a] == pre[a2] && s[b] == pre[b2]);
                    }
                    assert forall|c: (i32, i32)| s.contains(c) <==> pre.contains(c) && c != (x, z) by {
                        if s.contains(c) {
                            let k = choose|k: int| 0 <= k < s.len() && s[k] == c;
                            let k2 = if k < i { k } else { k + 1 };
                            assert(pre[k2] == c);
                            assert(k2 != i);
                        }
                        if pre.contains(c) && c != (x, z) {
                            let k = choose|k: int| 0 <= k < pre.len() && pre[k] == c;
                            assert(k != i);
                            let k2 = if k < i { k } else { k - 1 };
                            assert(s[k2] == c);
                        }
                    }
                    assert(s.to_set() =~= pre.to_set().remove((x, z)));
                }
            },
            None => {
                assert(pre.to_set() =~= pre.to_set().remove((x, z)));
            },
        }
    }

    /// Hands a player to the worker of their plot, starting it if it is not
    /// running. A new arrival gets an online entry; a returning one has theirs
    /// pointed at the plot.
    pub fn send_player_to_plot(&mut self, player: Player, new_entry: bool) -> (d: Delivery)
        requires
            old(self).wf(),
        ensures
            final(self).wf(),
            routed(d, old(self).running_plots@, player),
            final(self).running_plots@ == if old(self).running_plots@.contains(plot_of(player)) {
                old(self).running_plots@
            } else {
                old(self).running_plots@.push(plot_of(player))
            },
            new_entry ==> final(self).online() == old(self).online().insert(
                player.uuid,
                (plot_of(player).0, plot_of(player).1, player.username@, player.gamemode),
            ),
            !new_entry ==> final(self).online() == if old(self).online().contains_key(player.uuid) {
                old(self).online().insert(
                    player.uuid,
                    (plot_of(player).0, plot_of(player).1, old(self).online()[player.uuid].2, old(self).online()[player.uuid].3),
                )
            } else {
                old(self).online()
            },
            final(self).whitelist == old(self).whitelist,
            final(self).chat_format == old(self).chat_format,
    {
        let (x, z) = player.plot_pos();
        if new_entry {
            let e = PlayerListEntry {
                uuid: player.uuid,
                plot_x: x,
                plot_z: z,
                username: player.username.clone(),
                properties: duplicate_properties(&player.properties),
                gamemode: player.gamemode,
            };
            self.put_online(e);
        } else {
            self.update_player_entry(player.uuid, x, z);
        }
        if self.plot_running(x, z) {
            Delivery::Send { x, z, message: PrivMessage::PlayerEnterPlot(player) }
        } else {
            let ghost pre = self.running_plots@;
            self.running_plots.push((x, z));
            proof {
                let s = self.running_plots@;
                assert forall|a: int, b: int| 0 <= a < b < s.len() implies s[a] != s[b] by {
                    if b == pre.len() {
                        assert(pre.contains(s[a]));
                    }
                }
            }
            Delivery::Spawn { x, z, player }
        }
    }
}

impl MinecraftServer {
    /// Forgets an online player.
    pub fn remove_online(&mut self, uuid: u128)
        requires
            old(self).wf(),
        ensures
            final(self).wf(),
            final(self).online() == old(self).online().remove(uuid),
            final(self).running_plots@ == old(self).running_plots@,
            final(self).whitelist == old(self).whitelist,
            final(self).chat_format == old(self).chat_format,
    {
        let ghost pre = self.online_players@;
        proof {
            lemma_online_map(pre);
        }
        match self.find_online(uuid) {
            Some(i) => {
                self.online_players.remove(i);
                proof {
                    let s = self.online_players@;
                    assert(s == pre.remove(i as int));
                    let shift = |k: int| if k < i { k } else { k + 1 };
                    assert forall|k: int| 0 <= k < s.len() implies #[trigger] s[k] == pre[shift(k)] by {}
                    assert forall|a: int, b: int| 0 <= a < b < s.len() implies (#[trigger] s[a]).uuid != (#[trigger] s[b]).uuid by {
                        assert(s[a] == pre[shift(a)] && s[b] == pre[shift(b)]);
                    }
                    let m = online_map(pre).remove(uuid);
                    assert forall|u: u128| m.contains_key(u) <==> exists|k: int| 0 <= k < s.len() && (#[trigger] s[k]).uuid == u by {
                        if m.contains_key(u) {
                            let j = choose|j: int| 0 <= j < pre.len() && (#[trigger] pre[j]).uuid == u;
                            assert(j != i);
                            let k = if j < i { j } else { j - 1 };
                            assert(s[k] == pre[shift(k)]);
                            assert(s[k].uuid == u);
                        }
                        if exists|k: int| 0 <= k < s.len() && (#[trigger] s[k]).uuid == u {
                            let k = choose|k: int| 0 <= k < s.len() && (#[trigger] s[k]).uuid == u;
                            assert(s[k] == pre[shift(k)]);
                            assert(pre[shift(k)].uuid == u);
                            assert(shift(k) != i);
                        }
                    }
                    assert forall|k: int| 0 <= k < s.len() implies m[(#[trigger] s[k]).uuid] == info(s[k]) by {
                        assert(s[k] == pre[shift(k)]);
                        assert(online_map(pre)[pre[shift(k)].uuid] == info(pre[shift(k)]));
                        assert(shift(k) != i);
                    }
                    lemma_online_map_eq(s, m);
                }
            },
            None => {
                assert(online_map(pre) =~= online_map(pre).remove(uuid));
            },
        }
    }

    /// Records a player's new game mode, if they are online.
    pub fn set_online_gamemode(&mut self, uuid: u128, gamemode: Gamemode)
        requires
            old(self).wf(),
        ensures
            final(self).wf(),
            final(self).online() == if old(self).online().contains_key(uuid) {
                old(self).online().insert(uuid, (old(self).online()[uuid].0, old(self).online()[uuid].1, old(self).online()[uuid].2, gamemode))
            } else {
                old(self).online()
            },
            final(self).running_plots@ == old(self).running_plots@,
            final(self).whitelist == old(self).whitelist,
            final(self).chat_format == old(self).chat_format,
    {
        proof {
            lemma_online_map(self.online_players@);
        }
        match self.find_online(uuid) {
            Some(i) => {
                let old_entry = self.online_players[i].duplicate();
                let e = PlayerListEntry { gamemode, ..old_entry };
                self.put_online(e);
            },
            None => {},
        }
    }

    /// The first online player whose lower-case name starts with `prefix`.
    fn find_by_name_prefix(&self, prefix: &str) -> (r: Option<usize>)
        ensures
            match r {
                Some(i) => first_name_match(self.online_players@, prefix@) == Some(i as int)
                    && i < self.online_players@.len(),
                None => first_name_match(self.online_players@, prefix@).is_none(),
            },
    {
        let mut i: usize = 0;
        while i < self.online_players.len()
            invariant
                0 <= i <= self.online_players@.len(),
                first_name_match(self.online_players@.subrange(0, i as int), prefix@).is_none(),
            decreases self.online_players@.len() - i,
        {
            let lower = lowercase(self.online_players[i].username.as_str());
            let hit = starts_with(lower.as_str(), prefix);
            proof {
                let s = self.online_players@;
                assert(s.subrange(0, i + 1).drop_last() =~= s.subrange(0, i as int));
            }
            if hit {
                proof {
                    lemma_first_match_prefix(self.online_players@, prefix@, i as int + 1);
                }
                return Some(i);
            }
            i += 1;
        }
        proof {
            assert(self.online_players@.subrange(0, self.online_players@.len() as int) =~= self.online_players@);
        }
        None
    }

    /// The whitelist without the entries of `uuid`, and the names of those entries.
    fn remove_from_whitelist(list: Vec<WhitelistEntry>, uuid: u128) -> (r: (Vec<WhitelistEntry>, Vec<String>))
        ensures
            r.0@ == kept_entries(list@, uuid),
            r.1@ == removed_names(list@, uuid),
    {
        let mut kept: Vec<WhitelistEntry> = Vec::new();
        let mut removed: Vec<String> = Vec::new();
        let mut rest = list;
        let ghost orig = rest@;
        let n = rest.len();
        let mut i: usize = 0;
        while i < n
            invariant
                n == orig.len(),
                0 <= i <= n,
                kept@ == kept_entries(orig.subrange(0, i as int), uuid),
                removed@ == removed_names(orig.subrange(0, i as int), uuid),
                rest@ == orig.subrange(i as int, n as int),
            decreases n - i,
        {
            let e = rest.remove(0);
            proof {
                assert(e == orig[i as int]);
                assert(rest@ =~= orig.subrange(i + 1, n as int));
                assert(orig.subrange(0, i + 1).drop_last() =~= orig.subrange(0, i as int));
            }
            if e.uuid == uuid {
                removed.push(e.name);
            } else {
                kept.push(e);
            }
            i += 1;
        }
        proof {
            assert(orig.subrange(0, n as int) =~= orig);
        }
        (kept, removed)
    }
}

/// A dispatch that does nothing.
pub open spec fn is_quiet(d: Dispatch) -> bool {
    d.ensure_user.is_none() && d.tell.is_none() && d.broadcast.is_none() && d.delivery.is_none()
        && d.whitelist_replies@.len() == 0 && !d.await_unloads
}

fn quiet() -> (d: Dispatch)
    ensures
        is_quiet(d),
{
    Dispatch {
        ensure_user: None,
        tell: None,
        broadcast: None,
        delivery: None,
        whitelist_replies: Vec::new(),
        await_unloads: false,
    }
}

impl MinecraftServer {
    /// Decides what the server does for one message from a plot worker. A
    /// player who joins or leaves a plot is handed on exactly once, to the
    /// worker of the plot that holds them; on teleport, to the target's plot
    /// when it runs.
    pub fn handle_message(&mut self, msg: Message) -> (d: Dispatch)
        requires
            old(self).wf(),
        ensures
            final(self).wf(),
            final(self).chat_format == old(self).chat_format,
            handled(*old(self), *final(self), msg, d),
    {
        let mut d = quiet();
        match msg {
            Message::ChatInfo(uuid, username, message) => {
                proof {
                    reveal_strlit("{username}");
                    reveal_strlit("{message}");
                }
                let with_name = replace_all(self.chat_format.as_str(), "{username}", username.as_str());
                let line = replace_all(with_name.as_str(), "{message}", message.as_str());
                d.broadcast = Some(BroadcastMessage::Chat(uuid, line));
            },
            Message::PlayerJoined(player) => {
                let info = PlayerJoinInfo {
                    username: player.username.clone(),
                    uuid: player.uuid,
                    gamemode: player.gamemode,
                    properties: duplicate_properties(&player.properties),
                };
                d.ensure_user = Some((player.uuid, player.username.clone()));
                d.broadcast = Some(BroadcastMessage::PlayerJoinedInfo(info));
                d.delivery = Some(self.send_player_to_plot(player, true));
            },
            Message::PlayerLeft(uuid) => {
                self.remove_online(uuid);
                d.broadcast = Some(BroadcastMessage::PlayerLeft(uuid));
            },
            Message::PlotUnload(x, z) => {
                self.handle_plot_unload(x, z);
            },
            Message::PlayerLeavePlot(player) => {
                d.delivery = Some(self.send_player_to_plot(player, false));
            },
            Message::Shutdown => {
                d.broadcast = Some(BroadcastMessage::Shutdown);
                d.await_unloads = true;
            },
            Message::PlayerTeleportOther(player, name) => {
                let lower = lowercase(name.as_str());
                proof {
                    lemma_first_match_in_range(self.online_players@, lower@);
                }
                match self.find_by_name_prefix(lower.as_str()) {
                    Some(i) => {
                        let x = self.online_players[i].plot_x;
                        let z = self.online_players[i].plot_z;
                        if self.plot_running(x, z) {
                            self.update_player_entry(player.uuid, x, z);
                            d.delivery = Some(Delivery::Send { x, z, message: PrivMessage::PlayerTeleportOther(player, name) });
                        } else {
                            d.tell = Some((player.uuid, MSG_PLOT_NOT_LOADED));
                            d.delivery = Some(self.send_player_to_plot(player, false));
                        }
                    },
                    None => {
                        d.tell = Some((player.uuid, MSG_PLAYER_NOT_FOUND));
                        d.delivery = Some(self.send_player_to_plot(player, false));
                    },
                }
            },
            Message::PlayerUpdateGamemode(uuid, gamemode) => {
                self.set_online_gamemode(uuid, gamemode);
                d.broadcast = Some(BroadcastMessage::PlayerUpdateGamemode(uuid, gamemode));
            },
            Message::WhitelistAdd(uuid, name) => {
                match self.whitelist.take() {
                    Some(mut list) => {
                        d.whitelist_replies.push(WhitelistReply::Added(name.clone()));
                        list.push(WhitelistEntry { uuid, name });
                        self.whitelist = Some(list);
                        assert(d.whitelist_replies@ =~= seq![WhitelistReply::Added(name)]);
                    },
                    None => {
                        d.whitelist_replies.push(WhitelistReply::Disabled);
                        assert(d.whitelist_replies@ =~= seq![WhitelistReply::Disabled]);
                    },
                }
            },
            Message::WhitelistRemove(uuid) => {
                match self.whitelist.take() {
                    Some(list) => {
                        let (kept, mut removed) = MinecraftServer::remove_from_whitelist(list, uuid);
                        self.whitelist = Some(kept);
                        if removed.len() == 0 {
                            d.whitelist_replies.push(WhitelistReply::NotWhitelisted);
                            assert(d.whitelist_replies@ =~= seq![WhitelistReply::NotWhitelisted]);
                        } else {
                            let ghost names = removed@;
                            let mut k: usize = 0;
                            let n = removed.len();
                            while k < n
                                invariant
                                    0 <= k <= n,
                                    n == names.len(),
                                    removed@ == names.subrange(k as int, n as int),
                                    d.whitelist_replies@ == removed_replies(names.subrange(0, k as int)),
                                    d.broadcast.is_none() && d.delivery.is_none() && d.tell.is_none(),
                                    d.ensure_user.is_none() && !d.await_unloads,
                                decreases n - k,
                            {
                                let name = removed.remove(0);
                                d.whitelist_replies.push(WhitelistReply::Removed(name));
                                k += 1;
                                proof {
                                    assert(removed@ =~= names.subrange(k as int, n as int));
                                    assert(d.whitelist_replies@ =~= removed_replies(names.subrange(0, k as int)));
                                }
                            }
                            proof {
                                assert(names.subrange(0, n as int) =~= names);
                            }
                        }
                    },
                    None => {
                        d.whitelist_replies.push(WhitelistReply::Disabled);
                        assert(d.whitelist_replies@ =~= seq![WhitelistReply::Disabled]);
                    },
                }
            },
        }
        d
    }
}

/// The message neither touches the whitelist nor stops the server.
pub open spec fn leaves_rest(pre: MinecraftServer, post: MinecraftServer, d: Dispatch) -> bool {
    !d.await_unloads && d.whitelist_replies@.len() == 0 && post.whitelist == pre.whitelist
}

/// What handling `msg` does, from server state `pre` to `post`, with dispatch `d`.
pub open spec fn handled(pre: MinecraftServer, post: MinecraftServer, msg: Message, d: Dispatch) -> bool {
    match msg {
        Message::ChatInfo(uuid, username, text) => {
            &&& leaves_rest(pre, post, d)
            &&& d.delivery.is_none() && d.tell.is_none() && d.ensure_user.is_none()
            &&& post.online() == pre.online()
            &&& post.running_plots@ == pre.running_plots@
            &&& d.broadcast matches Some(BroadcastMessage::Chat(u, line))
            &&& u == uuid
            &&& line@ == chat_line(pre.chat_format@, username@, text@)
        },
        Message::PlayerJoined(p) => {
            &&& leaves_rest(pre, post, d)
            &&& d.ensure_user == Some((p.uuid, p.username))
            &&& d.broadcast matches Some(BroadcastMessage::PlayerJoinedInfo(info))
            &&& info.uuid == p.uuid && info.username == p.username && info.gamemode == p.gamemode
            &&& info.properties@ == p.properties@
            &&& d.delivery matches Some(dl) && routed(dl, pre.running_plots@, p)
            &&& d.tell.is_none()
            &&& post.online() == pre.online().insert(
                p.uuid,
                (plot_of(p).0, plot_of(p).1, p.username@, p.gamemode),
            )
        },
        Message::PlayerLeavePlot(p) => {
            &&& leaves_rest(pre, post, d)
            &&& d.delivery matches Some(dl) && routed(dl, pre.running_plots@, p)
            &&& d.broadcast.is_none() && d.tell.is_none() && d.ensure_user.is_none()
            &&& post.online() == moved(pre.online(), p.uuid, plot_of(p).0, plot_of(p).1)
            &&& post.running_plots@ == after_route(pre.running_plots@, p)
        },
        Message::PlayerLeft(uuid) => {
            &&& leaves_rest(pre, post, d)
            &&& d.broadcast matches Some(BroadcastMessage::PlayerLeft(u)) && u == uuid
            &&& d.delivery.is_none()
            &&& post.online() == pre.online().remove(uuid)
            &&& post.running_plots@ == pre.running_plots@
        },
        Message::PlayerTeleportOther(p, name) => {
            &&& leaves_rest(pre, post, d)
            &&& d.broadcast.is_none()
            &&& match first_name_match(pre.online_players@, lower_of(name@)) {
                None => d.tell == Some((p.uuid, MSG_PLAYER_NOT_FOUND))
                    && (d.delivery matches Some(dl) && routed(dl, pre.running_plots@, p))
                    && post.online() == moved(pre.online(), p.uuid, plot_of(p).0, plot_of(p).1)
                    && post.running_plots@ == after_route(pre.running_plots@, p),
                Some(i) => {
                    let target = pre.online_players@[i];
                    if pre.running_plots@.contains((target.plot_x, target.plot_z)) {
                        &&& d.tell.is_none()
                        &&& d.delivery == Some(Delivery::Send {
                            x: target.plot_x,
                            z: target.plot_z,
                            message: PrivMessage::PlayerTeleportOther(p, name),
                        })
                        &&& post.running_plots@ == pre.running_plots@
                        &&& post.online() == moved(pre.online(), p.uuid, target.plot_x, target.plot_z)
                    } else {
                        d.tell == Some((p.uuid, MSG_PLOT_NOT_LOADED))
                            && (d.delivery matches Some(dl) && routed(dl, pre.running_plots@, p))
                            && post.online() == moved(pre.online(), p.uuid, plot_of(p).0, plot_of(p).1)
                            && post.running_plots@ == after_route(pre.running_plots@, p)
                    }
                },
            }
        },
        Message::PlayerUpdateGamemode(uuid, gamemode) => {
            &&& leaves_rest(pre, post, d)
            &&& d.broadcast matches Some(BroadcastMessage::PlayerUpdateGamemode(u, g)) && u == uuid && g == gamemode
            &&& d.delivery.is_none()
            &&& post.running_plots@ == pre.running_plots@
            &&& post.online() == if pre.online().contains_key(uuid) {
                pre.online().insert(uuid, (pre.online()[uuid].0, pre.online()[uuid].1, pre.online()[uuid].2, gamemode))
            } else {
                pre.online()
            }
        },
        Message::PlotUnload(x, z) => {
            &&& post.whitelist == pre.whitelist
            &&& is_quiet(d)
            &&& unloaded(pre.running_plots@, post.running_plots@, (x, z))
            &&& post.online() == pre.online()
        },
        Message::WhitelistAdd(uuid, name) => {
            &&& !d.await_unloads && d.tell.is_none() && d.ensure_user.is_none()
            &&& post.online() == pre.online() && post.running_plots@ == pre.running_plots@
            &&& d.broadcast.is_none() && d.delivery.is_none()
            &&& match pre.whitelist {
                None => d.whitelist_replies@ == seq![WhitelistReply::Disabled] && post.whitelist.is_none(),
                Some(w) => d.whitelist_replies@ == seq![WhitelistReply::Added(name)]
                    && (post.whitelist matches Some(w2) && w2@ == w@.push(WhitelistEntry { uuid, name })),
            }
        },
        Message::WhitelistRemove(uuid) => {
            &&& !d.await_unloads && d.tell.is_none() && d.ensure_user.is_none()
            &&& post.online() == pre.online() && post.running_plots@ == pre.running_plots@
            &&& d.broadcast.is_none() && d.delivery.is_none()
            &&& match pre.whitelist {
                None => d.whitelist_replies@ == seq![WhitelistReply::Disabled] && post.whitelist.is_none(),
                Some(w) => {
                    &&& post.whitelist matches Some(w2) && w2@ == kept_entries(w@, uuid)
                    &&& removed_names(w@, uuid).len() == 0 ==> d.whitelist_replies@ == seq![WhitelistReply::NotWhitelisted]
                    &&& removed_names(w@, uuid).len() > 0 ==> d.whitelist_replies@ == removed_replies(removed_names(w@, uuid))
                },
            }
        },
        Message::Shutdown => {
            &&& d.whitelist_replies@.len() == 0 && d.tell.is_none() && d.ensure_user.is_none()
            &&& post.whitelist == pre.whitelist && post.online() == pre.online()
            &&& d.broadcast matches Some(BroadcastMessage::Shutdown)
            &&& d.await_unloads
            &&& d.delivery.is_none()
            &&& post.running_plots@ == pre.running_plots@
        },
    }
}

/// One `Removed` reply per name, in order.
pub open spec fn removed_replies(names: Seq<String>) -> Seq<WhitelistReply> {
    Seq::new(names.len(), |i: int| WhitelistReply::Removed(names[i]))
}

/// The whitelist entries that do not belong to `uuid`, in order.
pub open spec fn kept_entries(s: Seq<WhitelistEntry>, uuid: u128) -> Seq<WhitelistEntry>
    decreases s.len(),
{
    if s.len() == 0 {
        Seq::empty()
    } else if s.last().uuid == uuid {
        kept_entries(s.drop_last(), uuid)
    } else {
        kept_entries(s.drop_last(), uuid).push(s.last())
    }
}

/// The names on the whitelist entries of `uuid`, in order.
pub open spec fn removed_names(s: Seq<WhitelistEntry>, uuid: u128) -> Seq<String>
    decreases s.len(),
{
    if s.len() == 0 {
        Seq::empty()
    } else if s.last().uuid == uuid {
        removed_names(s.drop_last(), uuid).push(s.last().name)
    } else {
        removed_names(s.drop_last(), uuid)
    }
}

proof fn lemma_first_match_in_range(s: Seq<PlayerListEntry>, prefix: Seq<char>)
    ensures
        first_name_match(s, prefix) matches Some(i) ==> 0 <= i < s.len(),
    decreases s.len(),
{
    if s.len() > 0 {
        lemma_first_match_in_range(s.drop_last(), prefix);
    }
}

proof fn lemma_first_match_prefix(s: Seq<PlayerListEntry>, prefix: Seq<char>, n: int)
    requires
        0 < n <= s.len(),
        first_name_match(s.subrange(0, n - 1), prefix).is_none(),
        is_prefix(prefix, lower_of(s[n - 1].username@)),
    ensures
        first_name_match(s, prefix) == Some(n - 1),
    decreases s.len(),
{
    assert(s.subrange(0, n).drop_last() =~= s.subrange(0, n - 1));
    assert(first_name_match(s.subrange(0, n), prefix) == Some(n - 1));
    lemma_first_match_extends(s, prefix, n);
}

proof fn lemma_first_match_extends(s: Seq<PlayerListEntry>, prefix: Seq<char>, n: int)
    requires
        0 <= n <= s.len(),
        first_name_match(s.subrange(0, n), prefix).is_some(),
    ensures
        first_name_match(s, prefix) == first_name_match(s.subrange(0, n), prefix),
    decreases s.len() - n,
{
    if n < s.len() {
        assert(s.subrange(0, n + 1).drop_last() =~= s.subrange(0, n));
        lemma_first_match_extends(s, prefix, n + 1);
    } else {
        assert(s.subrange(0, n) =~= s);
    }
}

} // verus!
