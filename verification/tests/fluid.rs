use exopteron::game::BlockPosition;
use exopteron::item::block::fluid::lava::{MovingLavaBlock, NotFlowingLavaBlock};
use exopteron::item::block::fluid::water::{MovingWaterBlock, NotFlowingWaterBlock};
use exopteron::item::block::fluid::{is_lava, is_water, FluidEvent, FluidMaterial, FluidWorld};
use exopteron::item::registry::{BlockKind, ItemRegistry};
use exopteron::protocol::packets::Face;
use exopteron::world::{BlockState, Blocks};

fn registry() -> ItemRegistry {
    let mut r = ItemRegistry::new();
    r.register_block(BlockKind { id: 0, item_stack_size: 64, solid: false });
    r.register_block(BlockKind { id: 1, item_stack_size: 64, solid: true });
    r.register_block(BlockKind { id: 4, item_stack_size: 64, solid: true });
    r.register_block(BlockKind { id: 8, item_stack_size: 1, solid: false });
    r.register_block(BlockKind { id: 9, item_stack_size: 1, solid: false });
    r.register_block(BlockKind { id: 10, item_stack_size: 1, solid: false });
    r.register_block(BlockKind { id: 11, item_stack_size: 1, solid: false });
    r.register_block(BlockKind { id: 37, item_stack_size: 64, solid: false });
    r.register_block(BlockKind { id: 49, item_stack_size: 64, solid: true });
    r
}

fn pos(x: i32, y: i32, z: i32) -> BlockPosition {
    BlockPosition::new(x, y, z, 0)
}

/// A stone floor at y = 63, but for the listed holes.
fn floor(holes: &[(i32, i32)]) -> Blocks {
    let mut b = Blocks::new();
    for x in -7..=7 {
        for z in -7..=7 {
            if !holes.contains(&(x, z)) {
                b.set(pos(x, 63, z), BlockState::new(1, 0));
            }
        }
    }
    b
}

fn block(w: &FluidWorld, p: BlockPosition) -> Option<BlockState> {
    w.blocks.get(p)
}

#[test]
fn blocks_set_and_get() {
    let mut b = Blocks::new();
    assert!(b.get(pos(1, 2, 3)).is_none());
    b.set(pos(1, 2, 3), BlockState::new(5, 1));
    b.set(pos(1, 2, 4), BlockState::new(6, 0));
    b.set(pos(1, 2, 3), BlockState::new(7, 2));
    assert_eq!(b.get(pos(1, 2, 3)), Some(BlockState::new(7, 2)));
    assert_eq!(b.get(pos(1, 2, 4)), Some(BlockState::new(6, 0)));
    assert!(b.get(BlockPosition::new(1, 2, 3, 1)).is_none());
}

#[test]
fn fluid_ids() {
    assert!(is_water(8) && is_water(9) && !is_water(10));
    assert!(is_lava(10) && is_lava(11) && !is_lava(9));
    let water = MovingWaterBlock(8).fluid();
    assert_eq!(water.tick_rate(), 5);
    assert_eq!(water.opacity(), 3);
    let lava = MovingLavaBlock(10).fluid();
    assert_eq!(lava.tick_rate(), 30);
    assert_eq!(lava.opacity(), 15);
    assert_eq!(MovingLavaBlock::tick_rate(), 30);
    assert_eq!(MovingWaterBlock::opacity(), 3);
    assert_eq!(NotFlowingLavaBlock.id(), 11);
    assert_eq!(NotFlowingWaterBlock.id(), 9);
    assert!(MovingWaterBlock::is_same_material(9));
    assert!(!MovingLavaBlock::is_same_material(9));
}

#[test]
fn source_on_floor_spreads_to_all_sides() {
    let mut blocks = floor(&[]);
    let p = pos(0, 64, 0);
    blocks.set(p, BlockState::new(8, 0));
    let mut w = FluidWorld::new(blocks, registry());
    let water = MovingWaterBlock(8).fluid();
    assert_eq!(water.get_optimal_flow_directions(&w, 0, p), [true, true, true, true]);
    water.tick(&mut w, 0, BlockState::new(8, 0), p);
    // The source becomes still water.
    assert_eq!(block(&w, p), Some(BlockState::new(9, 0)));
    for q in [pos(-1, 64, 0), pos(1, 64, 0), pos(0, 64, -1), pos(0, 64, 1)] {
        assert_eq!(block(&w, q), Some(BlockState::new(8, 1)));
    }
    assert!(block(&w, pos(2, 64, 0)).is_none());
}

#[test]
fn source_over_air_falls() {
    let mut blocks = Blocks::new();
    let p = pos(0, 64, 0);
    blocks.set(p, BlockState::new(8, 0));
    let mut w = FluidWorld::new(blocks, registry());
    MovingWaterBlock(8).fluid().tick(&mut w, 0, BlockState::new(8, 0), p);
    assert_eq!(block(&w, pos(0, 63, 0)), Some(BlockState::new(8, 8)));
    // Nothing spreads sideways.
    assert!(block(&w, pos(1, 64, 0)).is_none());
}

#[test]
fn flow_heads_for_the_nearest_hole() {
    let mut blocks = floor(&[(2, 0)]);
    let p = pos(0, 64, 0);
    blocks.set(p, BlockState::new(8, 0));
    let w = FluidWorld::new(blocks, registry());
    let water = MovingWaterBlock(8).fluid();
    assert_eq!(water.get_optimal_flow_directions(&w, 0, p), [false, true, false, false]);
    assert_eq!(water.calculate_flow_cost(&w, 0, pos(1, 64, 0), 1, 1), 1);
    assert_eq!(water.calculate_flow_cost(&w, 0, pos(-1, 64, 3), 1, 0), 1000);
}

#[test]
fn flowing_water_washes_away_a_flower() {
    let mut blocks = floor(&[]);
    let p = pos(0, 64, 0);
    blocks.set(p, BlockState::new(8, 0));
    blocks.set(pos(1, 64, 0), BlockState::new(37, 0));
    let mut w = FluidWorld::new(blocks, registry());
    MovingWaterBlock(8).fluid().tick(&mut w, 0, BlockState::new(8, 0), p);
    assert_eq!(block(&w, pos(1, 64, 0)), Some(BlockState::new(8, 1)));
    assert!(w.events.contains(&FluidEvent::DropItems {
        position: pos(1, 64, 0),
        state: BlockState::new(37, 0)
    }));
}

#[test]
fn tick_ignores_other_material() {
    let mut blocks = floor(&[]);
    let p = pos(0, 64, 0);
    blocks.set(p, BlockState::new(10, 0));
    let mut w = FluidWorld::new(blocks, registry());
    MovingWaterBlock(8).fluid().tick(&mut w, 0, BlockState::new(10, 0), p);
    assert!(w.events.is_empty());
    assert_eq!(block(&w, p), Some(BlockState::new(10, 0)));
}

#[test]
fn flowing_water_without_source_dries_up() {
    let mut blocks = floor(&[]);
    let p = pos(0, 64, 0);
    blocks.set(p, BlockState::new(8, 3));
    let mut w = FluidWorld::new(blocks, registry());
    MovingWaterBlock(8).fluid().tick(&mut w, 0, BlockState::new(8, 3), p);
    assert_eq!(block(&w, p), Some(BlockState::new(0, 0)));
}

#[test]
fn water_next_to_source_takes_decay_one() {
    let mut blocks = floor(&[]);
    let p = pos(0, 64, 0);
    blocks.set(pos(-1, 64, 0), BlockState::new(9, 0));
    blocks.set(p, BlockState::new(8, 3));
    let mut w = FluidWorld::new(blocks, registry());
    MovingWaterBlock(8).fluid().tick(&mut w, 0, BlockState::new(8, 3), p);
    assert_eq!(block(&w, p), Some(BlockState::new(8, 1)));
    assert!(w.events.contains(&FluidEvent::ScheduleTick { position: p, world: 0, delay: 5, id: 8 }));
}

#[test]
fn water_between_two_sources_becomes_a_source() {
    let mut blocks = floor(&[]);
    let p = pos(0, 64, 0);
    blocks.set(pos(-1, 64, 0), BlockState::new(9, 0));
    blocks.set(pos(1, 64, 0), BlockState::new(9, 0));
    blocks.set(p, BlockState::new(8, 1));
    let mut w = FluidWorld::new(blocks, registry());
    MovingWaterBlock(8).fluid().tick(&mut w, 0, BlockState::new(8, 1), p);
    assert_eq!(block(&w, p), Some(BlockState::new(8, 0)));
}

#[test]
fn lava_may_hold_back() {
    let make = || {
        let mut blocks = floor(&[]);
        blocks.set(pos(-1, 64, 0), BlockState::new(10, 2));
        blocks.set(pos(0, 64, 0), BlockState::new(10, 2));
        FluidWorld::new(blocks, registry())
    };
    let lava = MovingLavaBlock(10).fluid();
    let p = pos(0, 64, 0);
    // With a roll other than 0 the lava keeps its decay.
    let mut w = make();
    lava.tick_with_roll(&mut w, 0, BlockState::new(10, 2), p, 3);
    assert_eq!(block(&w, p), Some(BlockState::new(10, 2)));
    // With a roll of 0 it thins out to one step past its neighbour.
    let mut w = make();
    lava.tick_with_roll(&mut w, 0, BlockState::new(10, 2), p, 0);
    assert_eq!(block(&w, p), Some(BlockState::new(10, 4)));
    assert!(w.events.contains(&FluidEvent::ScheduleTick { position: p, world: 0, delay: 30, id: 10 }));
}

#[test]
fn lava_source_hardens_into_obsidian() {
    let mut blocks = Blocks::new();
    let p = pos(0, 64, 0);
    blocks.set(p, BlockState::new(10, 0));
    blocks.set(pos(0, 65, 0), BlockState::new(9, 0));
    let mut w = FluidWorld::new(blocks, registry());
    FluidMaterial::Lava.check_for_harden(&mut w, 0, p);
    assert_eq!(block(&w, p), Some(BlockState::new(49, 0)));
    assert!(w.events.contains(&FluidEvent::Extinguish { position: p }));
    assert!(w.events.contains(&FluidEvent::SetNextTick { position: p, state: BlockState::new(49, 0) }));
}

#[test]
fn flowing_lava_hardens_into_cobblestone() {
    let mut blocks = Blocks::new();
    let p = pos(0, 64, 0);
    blocks.set(p, BlockState::new(10, 3));
    blocks.set(pos(0, 64, -1), BlockState::new(8, 2));
    let mut w = FluidWorld::new(blocks, registry());
    NotFlowingLavaBlock.added(&mut w, 0, p, BlockState::new(10, 3));
    assert_eq!(block(&w, p), Some(BlockState::new(4, 0)));
}

#[test]
fn lava_without_water_and_water_stay() {
    let mut blocks = Blocks::new();
    let p = pos(0, 64, 0);
    blocks.set(p, BlockState::new(10, 0));
    blocks.set(pos(5, 64, 0), BlockState::new(8, 0));
    let mut w = FluidWorld::new(blocks, registry());
    FluidMaterial::Lava.check_for_harden(&mut w, 0, p);
    assert_eq!(block(&w, p), Some(BlockState::new(10, 0)));
    FluidMaterial::Water.check_for_harden(&mut w, 0, pos(5, 64, 0));
    assert_eq!(block(&w, pos(5, 64, 0)), Some(BlockState::new(8, 0)));
    assert!(w.events.is_empty());
}

#[test]
fn still_water_starts_moving_when_a_neighbour_changes() {
    let mut blocks = Blocks::new();
    let p = pos(0, 64, 0);
    blocks.set(p, BlockState::new(9, 0));
    let mut w = FluidWorld::new(blocks, registry());
    NotFlowingWaterBlock.neighbor_update(&mut w, 0, p, BlockState::new(9, 0), Face::Invalid, BlockState::air());
    assert!(w.events.is_empty());
    NotFlowingWaterBlock.neighbor_update(&mut w, 0, p, BlockState::new(9, 0), Face::PositiveX, BlockState::air());
    assert_eq!(block(&w, p), Some(BlockState::new(8, 0)));
    assert!(w.events.contains(&FluidEvent::ScheduleTick { position: p, world: 0, delay: 5, id: 8 }));
}

#[test]
fn added_fluid_schedules_a_tick() {
    let mut blocks = Blocks::new();
    let p = pos(0, 64, 0);
    blocks.set(p, BlockState::new(8, 0));
    let mut w = FluidWorld::new(blocks, registry());
    MovingWaterBlock(8).fluid().added(&mut w, 0, p, BlockState::new(8, 0));
    assert_eq!(w.events, vec![FluidEvent::ScheduleTick { position: p, world: 0, delay: 5, id: 8 }]);
}

#[test]
fn lava_tick_draws_its_roll() {
    let lava = MovingLavaBlock(10).fluid();
    let p = pos(0, 64, 0);
    let mut held = 0;
    let mut thinned = 0;
    for _ in 0..200 {
        let mut blocks = floor(&[]);
        blocks.set(pos(-1, 64, 0), BlockState::new(10, 2));
        blocks.set(p, BlockState::new(10, 2));
        let mut w = FluidWorld::new(blocks, registry());
        lava.tick(&mut w, 0, BlockState::new(10, 2), p);
        match block(&w, p) {
            Some(b) if b == BlockState::new(10, 2) => held += 1,
            Some(b) if b == BlockState::new(10, 4) => thinned += 1,
            other => panic!("unexpected block {:?}", other),
        }
    }
    // Three rolls in four hold back; both outcomes occur.
    assert!(held > 0 && thinned > 0);
    assert!(held > thinned);
}
