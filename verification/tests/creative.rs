use exopteron::item::registry::{BlockKind, ItemKind, ItemRegistry};
use exopteron::network::creative::{
    clicked_stack, creative_inventory_action, CreativeAction, CreativeError,
};
use exopteron::protocol::client::CreativeInventoryAction;

fn registry() -> ItemRegistry {
    let mut r = ItemRegistry::new();
    r.register_item(ItemKind { id: 280, stack_size: 64, durability: None });
    r.register_block(BlockKind { id: 4, item_stack_size: 64, solid: true });
    r
}

fn action(slot_id: i16, item_id: i16, quantity: i16, meta: i16) -> CreativeInventoryAction {
    CreativeInventoryAction { slot_id, item_id, quantity, meta }
}

#[test]
fn items_and_blocks_by_id() {
    let r = registry();
    let s = clicked_stack(&r, &action(36, 280, 5, 0)).unwrap();
    assert_eq!((s.id(), s.count()), (280, 5));
    let s = clicked_stack(&r, &action(36, 4, 64, 2)).unwrap();
    assert_eq!((s.id(), s.count(), s.damage_taken()), (4, 64, 2));
    assert!(clicked_stack(&r, &action(36, -1, 1, 0)).is_none());
    assert!(clicked_stack(&r, &action(36, 300, 1, 0)).is_none());
    assert!(clicked_stack(&r, &action(36, 7, 1, 0)).is_none());
}

#[test]
fn quantity_is_truncated_to_a_byte() {
    let r = registry();
    assert_eq!(clicked_stack(&r, &action(36, 4, 300, 0)).unwrap().count(), 44);
}

#[test]
fn only_in_creative_mode() {
    let r = registry();
    assert!(matches!(
        creative_inventory_action(&r, &action(36, 4, 1, 0), false),
        Err(CreativeError::NotCreative)
    ));
}

#[test]
fn slot_minus_one_drops() {
    let r = registry();
    match creative_inventory_action(&r, &action(-1, 280, 3, 0), true).unwrap() {
        CreativeAction::Drop(s) => assert_eq!((s.id(), s.count()), (280, 3)),
        other => panic!("expected a drop, got {:?}", other),
    }
    assert!(matches!(
        creative_inventory_action(&r, &action(-1, -1, 0, 0), true).unwrap(),
        CreativeAction::Nothing
    ));
}

#[test]
fn other_slots_are_set() {
    let r = registry();
    match creative_inventory_action(&r, &action(40, -1, 0, 0), true).unwrap() {
        CreativeAction::SetSlot { slot, item } => {
            assert_eq!(slot, 40);
            assert!(item.is_none());
        }
        other => panic!("expected a slot change, got {:?}", other),
    }
}
