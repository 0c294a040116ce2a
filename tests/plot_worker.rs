use mchprs_core::blocks::{Block, PRESSURE_PLATE_OFF_ID, PRESSURE_PLATE_ON_ID, LEVER_OFF_ID};
use mchprs_core::geometry::{
    chunk_in_plot_bounds, get_chunk_distance, get_next_plot, in_plot_bounds, send_away_plot, BlockPos,
    PLOT_BLOCK_WIDTH,
};
use mchprs_core::interact::{DigOutcome, HeldItem, Permissions, UseOutcome, MSG_BREAK_OUTSIDE};
use mchprs_core::pacing::{batch_size, max_batch_size, Tps};
use mchprs_core::plot::{BackendState, BackendVariant, Gamemode, PlateChange, Player, Plot};
use mchprs_core::server::{BroadcastMessage, PrivMessage};
use mchprs_core::worker::BroadcastEffect;
use mchprs_core::ticks::TickPriority;
use mchprs_core::view::view_delta;
use mchprs_core::world::{BlockChange, PlotWorld};

const SEC: u64 = 1_000_000_000;

fn player(uuid: u128, x: i32, y: i32, z: i32) -> Player {
    Player {
        uuid,
        entity_id: uuid as u32,
        username: format!("player{uuid}"),
        properties: Vec::new(),
        gamemode: Gamemode::Creative,
        pos: BlockPos::new(x, y, z),
        on_ground: true,
        crouching: false,
        last_chunk_x: x >> 4,
        last_chunk_z: z >> 4,
        first_position: None,
        second_position: None,
    }
}

fn plot(x: i32, z: i32, always_running: bool) -> Plot {
    Plot::new(PlotWorld::generate(x, z, 1), Tps::Limited(10), 20, always_running, None, 0)
}

fn all_perms() -> Permissions {
    Permissions { selection_pos: true, interact_other: true, interact_unowned: true }
}

#[test]
fn chunk_in_plot_check() {
    assert!(chunk_in_plot_bounds(1, 0, 32, 0));
    assert!(!chunk_in_plot_bounds(1, 0, 64, 0));
    assert!(chunk_in_plot_bounds(-1, -1, -1, -32));
    assert!(!chunk_in_plot_bounds(-1, -1, 0, -32));
    assert!(in_plot_bounds(0, 0, PLOT_BLOCK_WIDTH - 1, 0));
    assert!(!in_plot_bounds(0, 0, PLOT_BLOCK_WIDTH + 5, 0));
    assert!(in_plot_bounds(-1, 0, -1, 0));
}

#[test]
fn chebyshev_distance() {
    assert_eq!(get_chunk_distance(0, 0, 3, -5), 5);
    assert_eq!(get_chunk_distance(i32::MIN, 0, i32::MAX, 0), u32::MAX);
}

#[test]
fn plot_spiral_walks_rings() {
    let mut p = (0, 0);
    let mut seen = vec![p];
    for _ in 0..24 {
        p = get_next_plot(p.0, p.1);
        seen.push(p);
    }
    assert_eq!(seen[1], (0, 1));
    assert_eq!(seen[2], (-1, 1));
    seen.sort();
    seen.dedup();
    assert_eq!(seen.len(), 25);
    assert!(seen.iter().all(|&(x, z)| x.abs() <= 2 && z.abs() <= 2));
}

#[test]
fn failed_plot_sends_players_to_spawn() {
    assert_eq!(send_away_plot(3, -2), (0, 0));
    assert_eq!(send_away_plot(0, 0), (1, 0));
}

#[test]
fn pressure_plate_round_trip() {
    let mut p = plot(0, 0, true);
    let plate = BlockPos::new(10, 64, 10);
    p.world.set_block_raw(plate, PRESSURE_PLATE_OFF_ID);
    p.players.push(player(1, 10, 64, 10));
    let on = p.on_player_move(0, BlockPos::new(9, 64, 10), plate);
    assert_eq!(on, vec![PlateChange { pos: plate, powered: true, by_backend: false }]);
    assert_eq!(Block::from_id(p.world.get_block_raw(plate)), Block::StonePressurePlate { powered: true });
    p.players[0].pos = BlockPos::new(11, 64, 10);
    let off = p.on_player_move(0, plate, BlockPos::new(11, 64, 10));
    assert_eq!(off, vec![PlateChange { pos: plate, powered: false, by_backend: false }]);
    assert_eq!(p.world.get_block_raw(plate), PRESSURE_PLATE_OFF_ID);
}

#[test]
fn pressure_plate_stays_down_while_someone_stands_on_it() {
    let mut p = plot(0, 0, true);
    let plate = BlockPos::new(10, 64, 10);
    p.world.set_block_raw(plate, PRESSURE_PLATE_ON_ID);
    p.players.push(player(1, 11, 64, 10));
    p.players.push(player(2, 10, 64, 10));
    let changes = p.on_player_move(0, plate, BlockPos::new(11, 64, 10));
    assert!(changes.is_empty());
    assert_eq!(p.world.get_block_raw(plate), PRESSURE_PLATE_ON_ID);
}

#[test]
fn airborne_player_does_not_press_plate() {
    let mut p = plot(0, 0, true);
    let plate = BlockPos::new(10, 64, 10);
    p.world.set_block_raw(plate, PRESSURE_PLATE_OFF_ID);
    let mut pl = player(1, 10, 64, 10);
    pl.on_ground = false;
    p.players.push(pl);
    assert!(p.on_player_move(0, BlockPos::new(9, 64, 10), plate).is_empty());
}

#[test]
fn plate_goes_to_active_backend() {
    let mut p = plot(0, 0, true);
    let plate = BlockPos::new(10, 64, 10);
    p.world.set_block_raw(plate, PRESSURE_PLATE_OFF_ID);
    p.players.push(player(1, 10, 64, 10));
    p.backend_ready(false);
    let on = p.on_player_move(0, BlockPos::new(9, 64, 10), plate);
    assert_eq!(on, vec![PlateChange { pos: plate, powered: true, by_backend: true }]);
    assert_eq!(p.world.get_block_raw(plate), PRESSURE_PLATE_OFF_ID);
}

#[test]
fn batch_size_formulas() {
    assert_eq!(max_batch_size(20, None), 1);
    assert_eq!(max_batch_size(20, Some(0)), 1);
    // 50 ms between sends, 1 ms per tick: 50 ticks fit.
    assert_eq!(max_batch_size(20, Some(1_000_000)), 50);
    // A tick slower than the send period still runs one.
    assert_eq!(max_batch_size(20, Some(SEC)), 1);
    // 10 TPS: 250 ms of lag pays for two ticks and leaves 50 ms.
    assert_eq!(batch_size(Tps::Limited(10), 100_000_000, 150_000_000, 100), (2, 50_000_000));
    assert_eq!(batch_size(Tps::Limited(10), 0, 10 * SEC, 5), (5, 0));
    assert_eq!(batch_size(Tps::Unlimited, 7, 3, 42), (42, 7));
    assert_eq!(batch_size(Tps::Paused, 7, 3, 42), (0, 7));
    assert_eq!(batch_size(Tps::Limited(0), 7, 3, 42), (0, 7));
}

#[test]
fn plan_ticks_with_players() {
    let mut p = plot(0, 0, false);
    p.players.push(player(1, 5, 5, 5));
    assert_eq!(p.plan_ticks(SEC / 4), 1);
    assert_eq!(p.lag_time, SEC / 4 - 2 * (SEC / 10));
    assert_eq!(p.last_player_time, SEC / 4);
    p.record_batch(2_000_000, 1);
    assert_eq!(p.plan_ticks(SEC), 8);
    assert!(p.running);
}

#[test]
fn batch_is_capped() {
    let mut p = Plot::new(PlotWorld::generate(0, 0, 1), Tps::Unlimited, 1, false, None, 0);
    p.players.push(player(1, 5, 5, 5));
    p.record_batch(1, 1);
    assert_eq!(p.plan_ticks(1), 50_000);
}

#[test]
fn idle_plot_unloads_after_ten_minutes() {
    let mut p = plot(3, 3, false);
    assert_eq!(p.plan_ticks(600 * SEC), 0);
    assert!(p.running);
    assert_eq!(p.plan_ticks(600 * SEC + SEC / 2), 0);
    assert!(!p.running);
}

#[test]
fn pinned_plot_never_unloads() {
    let mut p = plot(0, 0, true);
    p.plan_ticks(100_000 * SEC);
    assert!(p.running);
}

#[test]
fn world_send_period() {
    let mut p = plot(0, 0, true);
    assert!(!p.world_send_due(SEC / 20));
    assert!(p.world_send_due(SEC / 20 + 1));
    assert_eq!(p.last_world_send_time, SEC / 20 + 1);
}

#[test]
fn backend_lifecycle() {
    let mut p = plot(0, 0, true);
    p.players.push(player(1, 5, 5, 5));
    p.world.schedule_tick(BlockPos::new(1, 1, 1), 3, TickPriority::Normal);
    let start = p.start_backend(false, BackendVariant::Direct, 0, 77);
    assert_eq!(start.bounds, (BlockPos::new(0, 0, 0), BlockPos::new(511, 383, 511)));
    assert!(!start.needs_accelerator_config);
    assert_eq!(start.ticks.len(), 1);
    assert!(p.world.to_be_ticked.is_empty());
    assert_eq!(p.last_update_time, 77);
    assert_eq!(p.backend, BackendState::Idle);
    p.backend_ready(true);
    assert!(p.is_io_only());
    assert!(p.tick().is_empty());
    let terminal = vec![
        BlockChange { pos: BlockPos::new(3, 3, 3), block: 5 },
        BlockChange { pos: BlockPos::new(3, 3, 3), block: 6 },
        BlockChange { pos: BlockPos::new(4, 3, 3), block: 8 },
    ];
    p.reset_backend(&terminal, 99);
    assert_eq!(p.backend, BackendState::Idle);
    assert!(p.world.to_be_ticked.is_empty());
    assert_eq!(p.world.get_block_raw(BlockPos::new(3, 3, 3)), 6);
    assert_eq!(p.world.get_block_raw(BlockPos::new(4, 3, 3)), 8);
    assert_eq!(p.last_update_time, 99);
    assert!(!p.is_io_only());
}

#[test]
fn backend_uses_selection_when_both_corners_set() {
    let mut p = plot(0, 0, true);
    let mut pl = player(1, 5, 5, 5);
    pl.first_position = Some(BlockPos::new(1, 2, 3));
    pl.second_position = Some(BlockPos::new(4, 5, 6));
    p.players.push(pl);
    let start = p.start_backend(true, BackendVariant::Fpga, 0, 0);
    assert!(start.needs_accelerator_config);
    assert_eq!(start.bounds, (BlockPos::new(1, 2, 3), BlockPos::new(4, 5, 6)));
}

#[test]
fn reset_without_backend_changes_nothing() {
    let mut p = plot(0, 0, true);
    p.reset_backend(&vec![BlockChange { pos: BlockPos::new(3, 3, 3), block: 5 }], 10);
    assert_eq!(p.world.get_block_raw(BlockPos::new(3, 3, 3)), 0);
    assert_eq!(p.last_update_time, 0);
}

#[test]
fn out_of_plot_break() {
    let mut p = plot(0, 0, true);
    p.players.push(player(1, 5, 5, 5));
    let pos = BlockPos::new(PLOT_BLOCK_WIDTH + 5, 0, 3);
    let r = p.handle_player_digging(0, pos, HeldItem::Empty, all_perms(), &Vec::new(), 0);
    assert_eq!(r, DigOutcome::OutsidePlot);
    assert_eq!(MSG_BREAK_OUTSIDE, "Can't break blocks outside of plot");
    assert!(p.world.flush_block_changes().is_empty());
}

#[test]
fn dig_decisions() {
    let mut p = plot(0, 0, true);
    p.players.push(player(1, 5, 5, 5));
    let pos = BlockPos::new(3, 0, 3);
    let no_perms = Permissions { selection_pos: false, interact_other: false, interact_unowned: false };
    assert_eq!(p.handle_player_digging(0, pos, HeldItem::Empty, no_perms, &Vec::new(), 0), DigOutcome::NoPermission);
    assert_eq!(
        p.handle_player_digging(0, pos, HeldItem::Wand, all_perms(), &Vec::new(), 0),
        DigOutcome::WandSelection { changed: true }
    );
    assert_eq!(p.players[0].first_position, Some(pos));
    assert_eq!(
        p.handle_player_digging(0, pos, HeldItem::Wand, all_perms(), &Vec::new(), 0),
        DigOutcome::WandSelection { changed: false }
    );
    assert_eq!(
        p.handle_player_digging(0, pos, HeldItem::Empty, all_perms(), &Vec::new(), 0),
        DigOutcome::Break { reset_backend: false }
    );
    p.backend_ready(true);
    assert_eq!(p.handle_player_digging(0, pos, HeldItem::Empty, all_perms(), &Vec::new(), 0), DigOutcome::IoOnly);
    p.backend = BackendState::Active { io_only: false };
    assert_eq!(
        p.handle_player_digging(0, pos, HeldItem::Empty, all_perms(), &Vec::new(), 0),
        DigOutcome::Break { reset_backend: true }
    );
    assert_eq!(p.backend, BackendState::Idle);
    p.backend = BackendState::Active { io_only: false };
    p.owner = Some(1);
    assert_eq!(
        p.handle_player_digging(0, pos, HeldItem::Empty, no_perms, &Vec::new(), 0),
        DigOutcome::Break { reset_backend: true }
    );
    p.owner = Some(2);
    assert_eq!(p.handle_player_digging(0, pos, HeldItem::Empty, no_perms, &Vec::new(), 0), DigOutcome::NoPermission);
}

#[test]
fn use_decisions() {
    let mut p = plot(0, 0, true);
    p.players.push(player(1, 5, 5, 5));
    let lever = BlockPos::new(3, 1, 3);
    p.world.set_block_raw(lever, LEVER_OFF_ID);
    assert_eq!(
        p.handle_use_item(0, BlockPos::new(-3, 1, 3), HeldItem::Other, all_perms(), &Vec::new(), 0),
        UseOutcome::OutsidePlot
    );
    assert_eq!(
        p.handle_use_item(0, lever, HeldItem::Empty, all_perms(), &Vec::new(), 0),
        UseOutcome::UseBlock { reset_backend: false }
    );
    p.backend_ready(true);
    assert_eq!(p.handle_use_item(0, lever, HeldItem::Empty, all_perms(), &Vec::new(), 0), UseOutcome::BackendInput);
    assert_eq!(p.handle_use_item(0, BlockPos::new(3, 0, 3), HeldItem::Other, all_perms(), &Vec::new(), 0), UseOutcome::IoOnly);
    p.players[0].crouching = true;
    assert_eq!(p.handle_use_item(0, lever, HeldItem::Empty, all_perms(), &Vec::new(), 0), UseOutcome::IoOnly);
    p.backend = BackendState::Active { io_only: false };
    assert_eq!(
        p.handle_use_item(0, lever, HeldItem::Empty, all_perms(), &Vec::new(), 0),
        UseOutcome::Nothing { reset_backend: true }
    );
    assert_eq!(p.backend, BackendState::Idle);
    p.backend = BackendState::Active { io_only: false };
    assert_eq!(
        p.handle_use_item(0, lever, HeldItem::Other, all_perms(), &Vec::new(), 0),
        UseOutcome::UseItem { reset_backend: true }
    );
    assert_eq!(
        p.handle_use_item(0, lever, HeldItem::Wand, all_perms(), &Vec::new(), 0),
        UseOutcome::WandSelection { changed: true }
    );
    assert_eq!(p.players[0].second_position, Some(lever));
}

#[test]
fn interpreter_tick_fires_due_entries() {
    let mut p = plot(0, 0, true);
    p.world.schedule_tick(BlockPos::new(1, 1, 1), 1, TickPriority::Low);
    p.world.schedule_tick(BlockPos::new(2, 1, 1), 1, TickPriority::High);
    let fired: Vec<BlockPos> = p.tick().iter().map(|e| e.pos).collect();
    assert_eq!(fired, vec![BlockPos::new(2, 1, 1), BlockPos::new(1, 1, 1)]);
}

#[test]
fn view_moves_by_one_chunk() {
    for vd in [0, 1, 2, 8] {
        for (dx, dz) in [(1, 0), (-1, 0), (0, 1), (0, -1)] {
            let u = view_delta(4, -7, 4 + dx, -7 + dz, vd, false);
            assert_eq!(u.center, (4 + dx, -7 + dz));
            assert_eq!(u.loads.len() as i32, 2 * vd + 1);
            for &(x, z) in &u.loads {
                assert!(get_chunk_distance(x, z, 4, -7) as i32 > vd);
                assert!(get_chunk_distance(x, z, 4 + dx, -7 + dz) as i32 <= vd);
            }
        }
    }
}

#[test]
fn view_far_move_reloads_everything() {
    let u = view_delta(0, 0, 100, 0, 2, false);
    assert_eq!(u.loads.len(), 25);
    assert_eq!(u.unloads.len(), 25);
    let forced = view_delta(0, 0, 0, 0, 2, true);
    assert_eq!(forced.loads.len(), 25);
    assert_eq!(forced.unloads.len(), 25);
    let still = view_delta(0, 0, 0, 0, 2, false);
    assert!(still.loads.is_empty() && still.unloads.is_empty());
}

#[test]
fn entering_loads_the_whole_view() {
    let mut p = plot(0, 0, true);
    let u = p.enter_plot(player(9, 40, 64, 40), 3);
    assert_eq!(u.center, (2, 2));
    assert_eq!(u.loads.len(), 49);
    assert_eq!(p.players.len(), 1);
    assert_eq!((p.players[0].last_chunk_x, p.players[0].last_chunk_z), (2, 2));
}

#[test]
fn players_leave_and_are_evicted() {
    let mut p = plot(0, 0, true);
    p.players.push(player(1, 5, 5, 5));
    p.players.push(player(2, 600, 5, 5));
    p.players.push(player(3, 7, 5, 5));
    let out = p.remove_oob_players();
    assert_eq!(out.iter().map(|q| q.uuid).collect::<Vec<_>>(), vec![2]);
    assert_eq!(p.players.iter().map(|q| q.uuid).collect::<Vec<_>>(), vec![1, 3]);
    let gone = p.remove_dc_players(&vec![true, false]);
    assert_eq!(gone.iter().map(|q| q.uuid).collect::<Vec<_>>(), vec![3]);
    assert!(p.leave_plot(3).is_none());
    assert_eq!(p.leave_plot(1).map(|q| q.uuid), Some(1));
    assert!(p.players.is_empty());
}

#[test]
fn teardown_hands_back_every_player() {
    let mut p = plot(0, 0, true);
    p.players.push(player(1, 5, 5, 5));
    p.players.push(player(2, 6, 5, 5));
    let evicted = p.teardown(&Vec::new(), 5);
    assert_eq!(evicted.len(), 2);
    assert!(p.players.is_empty());
}

#[test]
fn teardown_resets_an_active_backend() {
    let mut p = plot(0, 0, true);
    p.players.push(player(1, 5, 5, 5));
    p.backend_ready(true);
    let terminal = vec![BlockChange { pos: BlockPos::new(7, 7, 7), block: 3 }];
    let evicted = p.teardown(&terminal, 9);
    assert_eq!(evicted.len(), 1);
    assert_eq!(p.backend, BackendState::Idle);
    assert_eq!(p.world.get_block_raw(BlockPos::new(7, 7, 7)), 3);
}

#[test]
fn shutdown_broadcast_stops_the_plot() {
    let mut p = plot(0, 0, true);
    p.players.push(player(1, 5, 5, 5));
    match p.handle_broadcast(&BroadcastMessage::PlayerLeft(3)) {
        BroadcastEffect::Forward => {}
        BroadcastEffect::Shutdown(_) => panic!("not a shutdown"),
    }
    assert!(p.running);
    match p.handle_broadcast(&BroadcastMessage::Shutdown) {
        BroadcastEffect::Shutdown(players) => assert_eq!(players.len(), 1),
        BroadcastEffect::Forward => panic!("shutdown expected"),
    }
    assert!(!p.running && !p.always_running && p.players.is_empty());
}

#[test]
fn teleport_lands_on_named_player() {
    let mut p = plot(0, 0, true);
    p.players.push(player(1, 100, 70, 200));
    let u = p.handle_priv_message(PrivMessage::PlayerTeleportOther(player(2, 5, 5, 5), "player1".to_string()), 2);
    assert_eq!(p.players[1].pos, BlockPos::new(100, 70, 200));
    assert_eq!(u.center, (6, 12));
    p.handle_priv_message(PrivMessage::PlayerTeleportOther(player(3, 5, 5, 5), "nobody".to_string()), 2);
    assert_eq!(p.players[2].pos, BlockPos::new(5, 5, 5));
}

#[test]
fn block_ids_round_trip() {
    for id in 0..20u32 {
        assert_eq!(Block::from_id(id).get_id(), id);
    }
    assert_eq!(Block::from_id(4), Block::StonePressurePlate { powered: true });
}

#[test]
fn gamemode_change_tells_the_server() {
    let mut p = plot(0, 0, true);
    p.players.push(player(4, 5, 5, 5));
    match p.change_player_gamemode(0, Gamemode::Survival) {
        mchprs_core::server::Message::PlayerUpdateGamemode(uuid, gm) => {
            assert_eq!((uuid, gm), (4, Gamemode::Survival));
        }
        _ => panic!("wrong message"),
    }
    assert_eq!(p.players[0].gamemode, Gamemode::Survival);
}

#[test]
fn chunk_lookup_by_chunk_coordinates() {
    let w = PlotWorld::generate(1, -1, 1);
    assert_eq!(w.get_chunk_index_for_chunk(33, -30), Some(1 * 32 + 2));
    let c = w.get_chunk(33, -30).expect("chunk of the plot");
    assert_eq!((c.x, c.z), (33, -30));
    assert!(w.get_chunk(31, -30).is_none());
    assert!(w.get_chunk(33, 0).is_none());
}

#[test]
fn permitted_dig_resets_the_backend_first() {
    let mut p = plot(0, 0, true);
    p.players.push(player(1, 5, 5, 5));
    p.backend_ready(false);
    let terminal = vec![BlockChange { pos: BlockPos::new(2, 2, 2), block: 9 }];
    let r = p.handle_player_digging(0, BlockPos::new(3, 0, 3), HeldItem::Empty, all_perms(), &terminal, 40);
    assert_eq!(r, DigOutcome::Break { reset_backend: true });
    assert_eq!(p.backend, BackendState::Idle);
    assert_eq!(p.world.get_block_raw(BlockPos::new(2, 2, 2)), 9);
    assert_eq!(p.last_update_time, 40);
    assert!(p.world.flush_block_changes().iter().any(|c| c.pos == BlockPos::new(2, 2, 2) && c.block == 9));
}

#[test]
fn refused_dig_keeps_the_backend() {
    let mut p = plot(0, 0, true);
    p.players.push(player(1, 5, 5, 5));
    p.backend_ready(true);
    let terminal = vec![BlockChange { pos: BlockPos::new(2, 2, 2), block: 9 }];
    let r = p.handle_player_digging(0, BlockPos::new(3, 0, 3), HeldItem::Empty, all_perms(), &terminal, 40);
    assert_eq!(r, DigOutcome::IoOnly);
    assert_eq!(p.backend, BackendState::Active { io_only: true });
    assert_eq!(p.world.get_block_raw(BlockPos::new(2, 2, 2)), 0);
}

#[test]
fn use_resets_backend_but_input_does_not() {
    let mut p = plot(0, 0, true);
    p.players.push(player(1, 5, 5, 5));
    let lever = BlockPos::new(3, 1, 3);
    p.world.set_block_raw(lever, LEVER_OFF_ID);
    p.backend_ready(false);
    let terminal = vec![BlockChange { pos: BlockPos::new(4, 4, 4), block: 7 }];
    assert_eq!(p.handle_use_item(0, lever, HeldItem::Empty, all_perms(), &terminal, 1), UseOutcome::BackendInput);
    assert_eq!(p.backend, BackendState::Active { io_only: false });
    assert_eq!(
        p.handle_use_item(0, BlockPos::new(3, 0, 3), HeldItem::Other, all_perms(), &terminal, 2),
        UseOutcome::UseItem { reset_backend: true }
    );
    assert_eq!(p.backend, BackendState::Idle);
    assert_eq!(p.world.get_block_raw(BlockPos::new(4, 4, 4)), 7);
}
