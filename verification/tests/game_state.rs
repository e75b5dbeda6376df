use exopteron::game::BlockPosition;
use exopteron::network::entity_action::{entity_action_effect, ActionEffect, MovementState};
use exopteron::network::ids::{IdPool, NetworkID, ID_COUNT};
use exopteron::network::metadata::Metadata;
use exopteron::player_count::PlayerCount;
use exopteron::protocol::packets::EntityActionKind;
use exopteron::sleep::{SleepManager, NUM_TICKS_TO_SLEEP};
use exopteron::status_effects::fire::{is_water, FireEffect};
use exopteron::status_effects::poison::PoisonEffect;

#[test]
fn sleeping_skips_the_night_after_enough_ticks() {
    let mut s = SleepManager::new();
    for _ in 0..NUM_TICKS_TO_SLEEP - 1 {
        assert!(!s.update());
    }
    assert!(s.update());
    assert_eq!(s.num_ticks, 0);
    s.update();
    s.reset();
    assert_eq!(s.num_ticks, 0);
}

#[test]
fn ids_count_up_from_zero_and_come_back() {
    let mut pool = IdPool::new();
    assert_eq!(pool.len(), ID_COUNT);
    let a = NetworkID::new(&mut pool);
    let b = NetworkID::new(&mut pool);
    assert_eq!(a, NetworkID(0));
    assert_eq!(b, NetworkID(1));
    pool.release(a);
    assert_eq!(NetworkID::new(&mut pool), NetworkID(0));
    assert_eq!(NetworkID::new(&mut pool), NetworkID(2));
}

#[test]
fn metadata_bytes() {
    let m = Metadata::new();
    assert!(m.dirty);
    assert_eq!(m.finish(), vec![0x00, 0x00, 0x7F]);
    let m = Metadata { flags: 0x08, dirty: false };
    assert_eq!(m.finish(), vec![0x00, 0x08, 0x7F]);
}

#[test]
fn player_count_stops_at_the_max() {
    let count = PlayerCount::new(2);
    assert_eq!(count.get_max(), 2);
    assert_eq!(count.get(), 0);
    assert!(count.try_add_player().is_ok());
    let other = count.clone();
    assert!(other.try_add_player().is_ok());
    assert!(count.try_add_player().is_err());
    assert_eq!(count.get(), 2);
    other.remove_player();
    assert_eq!(count.get(), 1);
    assert!(count.try_add_player().is_ok());
}

#[test]
fn count_after_join() {
    assert_eq!(PlayerCount::count_after_join(3, 10), Some(4));
    assert_eq!(PlayerCount::count_after_join(10, 10), None);
    assert_eq!(PlayerCount::count_after_join(0, 0), None);
}

#[test]
fn fire_burns_every_twenty_ticks() {
    let mut fire = FireEffect::new(45);
    assert_eq!(fire.tick(false, false, false, false), Some(1));
    assert_eq!(fire.time_ticks, 44);
    for _ in 0..20 {
        assert_eq!(fire.tick(false, false, false, false), None);
    }
    assert_eq!(fire.tick(false, false, true, false), Some(20));
    assert_eq!(fire.tick(false, false, false, true), None);
    assert!(!fire.should_remove());
}

#[test]
fn water_puts_fire_out() {
    let mut fire = FireEffect::new(100);
    assert_eq!(fire.tick(true, true, false, false), None);
    assert!(fire.should_remove());
    assert_eq!(fire.tick(false, false, false, false), None);
    assert!(is_water(8) && is_water(9) && !is_water(10));
}

#[test]
fn fire_runs_out() {
    let mut fire = FireEffect::new(1);
    assert_eq!(fire.tick(false, false, false, true), None);
    assert!(fire.should_remove());
}

#[test]
fn poison_wears_off_at_zero() {
    assert!(PoisonEffect::new(1, 0).should_remove());
    assert!(!PoisonEffect::new(1, 20).should_remove());
}

#[test]
fn entity_actions() {
    let idle = MovementState { sneaking: false, sprinting: false };
    let (e, s) = entity_action_effect(EntityActionKind::StartSneaking, idle);
    assert_eq!(e, ActionEffect::Sneak(true));
    assert!(s.sneaking);
    let (e2, s2) = entity_action_effect(EntityActionKind::StartSneaking, s);
    assert_eq!(e2, ActionEffect::Nothing);
    assert_eq!(s2, s);
    let (e, s) = entity_action_effect(EntityActionKind::StartSprinting, idle);
    assert_eq!(e, ActionEffect::Sprint(true));
    assert!(s.sprinting);
    let (e, _) = entity_action_effect(EntityActionKind::StopSprinting, idle);
    assert_eq!(e, ActionEffect::Nothing);
    let (e, _) = entity_action_effect(EntityActionKind::StopSneaking, s);
    assert_eq!(e, ActionEffect::Nothing);
    let (e, t) = entity_action_effect(EntityActionKind::LeaveBed, s);
    assert_eq!(e, ActionEffect::LeaveBed);
    assert_eq!(t, s);
}

#[test]
fn block_positions() {
    let p = BlockPosition::new(1, 2, 3, 4);
    assert_eq!(p.offset(-1, 0, 2), BlockPosition { x: 0, y: 2, z: 5, world: 4 });
}

#[test]
fn after_a_reset_the_101st_update_skips_the_night() {
    let mut s = SleepManager { num_ticks: 57 };
    s.reset();
    for _ in 0..100 {
        assert!(!s.update());
    }
    assert!(s.update());
}
