use exopteron::item::registry::{BlockKind, ItemKind, ItemRegistry};
use exopteron::item::stack::ItemStack;
use exopteron::network::interaction::{
    digging_action, placement_action, placement_start, sign_text_fits, DiggingAction,
    PlacementAction, PlacementStart,
};
use exopteron::protocol::packets::DiggingStatus;
use exopteron::world::BlockState;

fn registry() -> ItemRegistry {
    let mut r = ItemRegistry::new();
    r.register_item(ItemKind { id: 256, stack_size: 1, durability: Some(250) });
    r.register_block(BlockKind { id: 4, item_stack_size: 64, solid: true });
    r
}

#[test]
fn digging_out_of_reach_sends_the_block_back() {
    let stone = BlockState::new(1, 0);
    let a = digging_action(DiggingStatus::StartedDigging, false, Some(stone), true, false, Some(1), None);
    assert_eq!(a, DiggingAction::Resync(stone));
    let a = digging_action(DiggingStatus::FinishedDigging, false, None, false, true, None, None);
    assert_eq!(a, DiggingAction::Nothing);
}

#[test]
fn starting_to_dig_breaks_soft_blocks_and_anything_in_creative() {
    let r = registry();
    let pick = ItemStack::new(&r, 256, 1, 0);
    let b = Some(BlockState::new(1, 0));
    assert_eq!(
        digging_action(DiggingStatus::StartedDigging, true, b, false, true, Some(1), Some(pick)),
        DiggingAction::Break { drops: true, use_held_item: true, notify_digger: false }
    );
    assert_eq!(
        digging_action(DiggingStatus::StartedDigging, true, b, false, true, Some(3), Some(pick)),
        DiggingAction::Nothing
    );
    assert_eq!(
        digging_action(DiggingStatus::StartedDigging, true, b, true, false, Some(3), None),
        DiggingAction::Break { drops: false, use_held_item: false, notify_digger: true }
    );
    assert_eq!(
        digging_action(DiggingStatus::StartedDigging, true, b, true, false, None, None),
        DiggingAction::Nothing
    );
}

#[test]
fn finishing_a_dig_breaks_the_block() {
    let r = registry();
    let cobble = ItemStack::new(&r, 4, 3, 0);
    let b = Some(BlockState::new(1, 0));
    assert_eq!(
        digging_action(DiggingStatus::FinishedDigging, true, b, false, true, Some(3), Some(cobble)),
        DiggingAction::Break { drops: true, use_held_item: false, notify_digger: false }
    );
    assert_eq!(
        digging_action(DiggingStatus::DropItem, false, None, false, true, None, None),
        DiggingAction::DropHeldItem
    );
    assert_eq!(
        digging_action(DiggingStatus::ShootArrow, false, None, false, true, None, None),
        DiggingAction::StopUsing
    );
}

#[test]
fn placement_begins_by_the_face_and_the_target() {
    let r = registry();
    let pick = Some(ItemStack::new(&r, 256, 1, 0));
    let cobble = Some(ItemStack::new(&r, 4, 3, 0));
    assert_eq!(placement_start(true, pick, false, false), PlacementStart::UseItemInAir);
    assert_eq!(placement_start(true, cobble, true, true), PlacementStart::Nothing);
    assert_eq!(placement_start(false, cobble, false, true), PlacementStart::Disconnect);
    assert_eq!(placement_start(false, cobble, true, true), PlacementStart::Interact);
    assert_eq!(placement_start(false, cobble, true, false), PlacementStart::Place);
}

#[test]
fn placement_places_the_held_block() {
    let r = registry();
    let held = ItemStack::new(&r, 4, 3, 2);
    let named = ItemStack::new(&r, 4, 2, 2);
    let air = BlockState::new(0, 0);
    let a = placement_action(Some(named), Some(held), true, air, true, true, true, false, true);
    assert_eq!(
        a,
        PlacementAction::PlaceBlock {
            block: BlockState { b_type: 4, b_metadata: 2, b_light: 0, b_skylight: 15 },
            take_one: true
        }
    );
    let a = placement_action(Some(named), Some(held), true, air, true, true, true, true, true);
    assert_eq!(a, PlacementAction::ResyncTarget(air));
    let other = ItemStack::new(&r, 4, 1, 2);
    let a = placement_action(Some(other), Some(held), true, air, true, true, true, false, true);
    assert_eq!(a, PlacementAction::ResyncInventory);
    let pick = ItemStack::new(&r, 256, 1, 0);
    let a = placement_action(Some(pick), Some(pick), true, air, true, true, true, false, false);
    assert_eq!(a, PlacementAction::UseItemOnBlock);
}

#[test]
fn sign_lines_hold_fifteen_bytes() {
    assert!(sign_text_fits("fifteen bytes!!", "", "a", "b"));
    assert!(!sign_text_fits("", "sixteen bytes!!!", "", ""));
    // Nine characters, but each "é" takes two bytes.
    assert!(!sign_text_fits("", "", "ééééééééé", ""));
}
