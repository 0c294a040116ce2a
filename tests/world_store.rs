use mchprs_core::blocks::{Block, SANDSTONE_ID, STONE_BRICKS_ID};
use mchprs_core::generate::{generate_chunk, PlotLoadError};
use mchprs_core::geometry::{BlockPos, PLOT_BLOCK_HEIGHT, PLOT_BLOCK_WIDTH};
use mchprs_core::ticks::{TickEntry, TickPriority};
use mchprs_core::world::{BlockChange, BlockEntity, Chunk, PlotWorld};

fn flat(x: i32, z: i32) -> PlotWorld {
    PlotWorld::generate(x, z, 1)
}

#[test]
fn flat_world_generation() {
    let w = flat(0, 0);
    assert_eq!(PLOT_BLOCK_HEIGHT, 384);
    assert_eq!(Block::from_id(w.get_block_raw(BlockPos::new(0, 0, 0))), Block::StoneBricks);
    assert_eq!(Block::from_id(w.get_block_raw(BlockPos::new(1, 0, 1))), Block::Sandstone);
    assert_eq!(
        Block::from_id(w.get_block_raw(BlockPos::new(PLOT_BLOCK_WIDTH - 1, 0, 5))),
        Block::StoneBricks
    );
    assert_eq!(w.get_block_raw(BlockPos::new(1, 1, 1)), 0);
}

#[test]
fn generated_chunk_borders_in_negative_plot() {
    // Chunk -1 holds blocks -16..-1; block -1 is the last column of plot -1.
    let c = generate_chunk(2, -1, -1);
    assert_eq!(c.get_block(15, 0, 15), STONE_BRICKS_ID);
    assert_eq!(c.get_block(14, 1, 14), SANDSTONE_ID);
    assert_eq!(c.get_block(14, 2, 14), 0);
}

#[test]
fn set_then_get_inside_bounds() {
    let mut w = flat(0, 0);
    let p = BlockPos::new(10, 64, 10);
    assert!(w.set_block_raw(p, 77));
    assert_eq!(w.get_block_raw(p), 77);
    assert!(!w.set_block_raw(p, 77));
    assert!(w.set_block_raw(p, 78));
    assert_eq!(w.get_block_raw(p), 78);
    assert_eq!(w.get_block_raw(BlockPos::new(10, 65, 10)), 0);
}

#[test]
fn writes_outside_bounds_are_ignored() {
    let mut w = flat(0, 0);
    for p in [
        BlockPos::new(PLOT_BLOCK_WIDTH + 5, 10, 3),
        BlockPos::new(-1, 10, 3),
        BlockPos::new(3, 10, -1),
        BlockPos::new(3, PLOT_BLOCK_HEIGHT, 3),
        BlockPos::new(3, -1, 3),
    ] {
        assert!(!w.set_block_raw(p, 5));
        assert_eq!(w.get_block_raw(p), 0);
    }
}

#[test]
fn plot_in_other_coordinates_keeps_its_own_blocks() {
    let mut w = flat(-2, 3);
    let p = BlockPos::new(-2 * 512 + 100, 20, 3 * 512 + 7);
    assert!(w.set_block_raw(p, 9));
    assert_eq!(w.get_block_raw(p), 9);
    assert_eq!(w.get_block_raw(BlockPos::new(100, 20, 7)), 0);
    assert_eq!(w.get_corners(), (BlockPos::new(-1024, 0, 1536), BlockPos::new(-513, 383, 2047)));
}

#[test]
fn flush_emits_each_changed_block_once() {
    let mut w = flat(0, 0);
    let a = BlockPos::new(1, 5, 1);
    let b = BlockPos::new(300, 5, 40);
    w.set_block_raw(a, 11);
    w.set_block_raw(a, 12);
    w.set_block_raw(b, 13);
    w.set_block_raw(BlockPos::new(1, 1, 1), 0);
    let mut changes = w.flush_block_changes();
    changes.sort_by_key(|c| (c.pos.x, c.pos.y, c.pos.z));
    assert_eq!(
        changes,
        vec![BlockChange { pos: a, block: 12 }, BlockChange { pos: b, block: 13 }]
    );
    assert!(w.chunks.iter().all(|c| c.dirty.is_empty()));
    assert!(w.flush_block_changes().is_empty());
    assert_eq!(w.get_block_raw(a), 12);
}

#[test]
fn unchanged_write_is_not_flushed() {
    let mut w = flat(0, 0);
    w.set_block_raw(BlockPos::new(1, 0, 1), SANDSTONE_ID);
    assert!(w.flush_block_changes().is_empty());
}

#[test]
fn block_entities_round_trip() {
    let mut w = flat(0, 0);
    let p = BlockPos::new(4, 70, 4);
    w.set_block_entity(p, BlockEntity { kind: 7, data: vec![1, 2, 3] });
    let e = w.get_block_entity(p).expect("entity stored");
    assert_eq!(e.kind, 7);
    assert_eq!(e.data, vec![1, 2, 3]);
    w.delete_block_entity(p);
    assert!(w.get_block_entity(p).is_none());
    w.set_block_entity(BlockPos::new(-4, 70, 4), BlockEntity { kind: 1, data: vec![] });
    assert!(w.get_block_entity(BlockPos::new(-4, 70, 4)).is_none());
}

#[test]
fn tick_ordering_scenario() {
    let mut w = flat(0, 0);
    let a = BlockPos::new(1, 1, 1);
    let b = BlockPos::new(2, 2, 2);
    let c = BlockPos::new(3, 3, 3);
    w.schedule_tick(a, 2, TickPriority::Normal);
    w.schedule_tick(b, 1, TickPriority::High);
    w.schedule_tick(c, 2, TickPriority::High);
    let first: Vec<BlockPos> = w.take_due_ticks().iter().map(|e| e.pos).collect();
    assert_eq!(first, vec![b]);
    let second: Vec<BlockPos> = w.take_due_ticks().iter().map(|e| e.pos).collect();
    assert_eq!(second, vec![c, a]);
    assert!(w.take_due_ticks().is_empty());
}

#[test]
fn fired_ticks_come_out_in_sorted_order() {
    let mut w = flat(0, 0);
    let p = |i: i32| BlockPos::new(i, 0, 0);
    w.schedule_tick(p(1), 0, TickPriority::Low);
    w.schedule_tick(p(2), 1, TickPriority::Normal);
    w.schedule_tick(p(3), 5, TickPriority::High);
    w.schedule_tick(p(4), 1, TickPriority::High);
    w.schedule_tick(p(5), 0, TickPriority::Normal);
    w.schedule_tick(p(6), 3, TickPriority::Low);
    w.schedule_tick(p(7), 3, TickPriority::High);
    let fired = w.take_due_ticks();
    let order: Vec<BlockPos> = fired.iter().map(|e| e.pos).collect();
    assert_eq!(order, vec![p(5), p(1), p(4), p(2)]);
    assert!(fired.iter().all(|e| e.ticks_left == 0));
    assert_eq!(
        w.to_be_ticked,
        vec![
            TickEntry { pos: p(7), ticks_left: 2, tick_priority: TickPriority::High },
            TickEntry { pos: p(6), ticks_left: 2, tick_priority: TickPriority::Low },
            TickEntry { pos: p(3), ticks_left: 4, tick_priority: TickPriority::High },
        ]
    );
}

#[test]
fn queue_after_first_tick_is_sorted() {
    let mut w = flat(0, 0);
    let (a, b, c) = (BlockPos::new(1, 1, 1), BlockPos::new(2, 2, 2), BlockPos::new(3, 3, 3));
    w.schedule_tick(a, 2, TickPriority::Normal);
    w.schedule_tick(b, 1, TickPriority::High);
    w.schedule_tick(c, 2, TickPriority::High);
    w.take_due_ticks();
    assert_eq!(
        w.to_be_ticked,
        vec![
            TickEntry { pos: c, ticks_left: 1, tick_priority: TickPriority::High },
            TickEntry { pos: a, ticks_left: 1, tick_priority: TickPriority::Normal },
        ]
    );
}

#[test]
fn pending_tick_lookup() {
    let mut w = flat(0, 0);
    assert!(!w.pending_tick_at(BlockPos::new(1, 2, 3)));
    w.schedule_tick(BlockPos::new(1, 2, 3), 4, TickPriority::Low);
    w.schedule_tick(BlockPos::new(1, 2, 3), 4, TickPriority::Low);
    assert!(w.pending_tick_at(BlockPos::new(1, 2, 3)));
    assert_eq!(w.to_be_ticked.len(), 2);
    assert_eq!(w.drain_ticks().len(), 2);
    assert!(!w.pending_tick_at(BlockPos::new(1, 2, 3)));
}

#[test]
fn loading_checks_chunk_count() {
    let chunks: Vec<Chunk> = (0..3).map(|_| Chunk::empty(0, 0)).collect();
    assert_eq!(
        PlotWorld::from_data(0, 0, chunks, Vec::new()).err(),
        Some(PlotLoadError::WrongChunkCount { found: 3 })
    );
    let chunks: Vec<Chunk> = (0..1024).map(|_| Chunk::empty(0, 0)).collect();
    assert_eq!(
        PlotWorld::from_data(5_000_000, 0, chunks, Vec::new()).err(),
        Some(PlotLoadError::OutOfWorld)
    );
}

#[test]
fn loading_places_chunks_row_major() {
    let mut chunks: Vec<Chunk> = (0..1024).map(|_| Chunk::empty(0, 0)).collect();
    chunks[33].set_block(2, 3, 4, 99);
    let w = PlotWorld::from_data(1, 0, chunks, Vec::new()).ok().expect("loads");
    assert_eq!((w.chunks[33].x, w.chunks[33].z), (33, 1));
    assert_eq!(w.get_block_raw(BlockPos::new(512 + 16 + 2, 3, 16 + 4)), 99);
}
