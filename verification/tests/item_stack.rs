use exopteron::item::registry::{BlockKind, ItemKind, ItemRegistry};
use exopteron::item::stack::{ItemStack, ItemStackBuilder, ItemStackError, ItemStackType};

fn registry() -> ItemRegistry {
    let mut r = ItemRegistry::new();
    r.register_item(ItemKind { id: 1, stack_size: 64, durability: None });
    r.register_item(ItemKind { id: 256, stack_size: 1, durability: Some(250) });
    r.register_item(ItemKind { id: 280, stack_size: 64, durability: None });
    r.register_block(BlockKind { id: 4, item_stack_size: 64, solid: true });
    r.register_block(BlockKind { id: 8, item_stack_size: 1, solid: false });
    r
}

#[test]
fn registry_finds_first_kind() {
    let mut r = registry();
    r.register_item(ItemKind { id: 1, stack_size: 16, durability: None });
    assert_eq!(r.get_item(1).unwrap().stack_size, 64);
    assert!(r.get_item(2).is_none());
    assert_eq!(r.get_block(4).unwrap().item_stack_size, 64);
    assert!(r.get_block(5).is_none());
}

#[test]
fn new_prefers_item_kind() {
    let r = registry();
    let s = ItemStack::new(&r, 280, 3, 0);
    assert!(matches!(s.item(), ItemStackType::Item(_)));
    assert_eq!(s.id(), 280);
    assert_eq!(s.count(), 3);
    assert_eq!(s.stack_size(), 64);
}

#[test]
fn new_falls_back_to_block_by_low_byte() {
    let r = registry();
    let s = ItemStack::new(&r, 4, 1, 0);
    assert!(matches!(s.item(), ItemStackType::Block(_)));
    // 260 has no item kind; its low byte is 4.
    let t = ItemStack::new(&r, 260, 1, 0);
    assert_eq!(t.id(), 4);
}

#[test]
fn set_count_errors() {
    let r = registry();
    let mut s = ItemStack::new(&r, 1, 10, 0);
    assert!(matches!(s.set_count(0), Err(ItemStackError::EmptyStack)));
    assert!(matches!(s.set_count(65), Err(ItemStackError::ExceedsStackSize)));
    assert_eq!(s.count(), 10);
    assert_eq!(s.set_count(64).unwrap(), 64);
    assert_eq!(s.count(), 64);
}

#[test]
fn add_and_unchecked_add() {
    let r = registry();
    let mut s = ItemStack::new(&r, 1, 60, 0);
    assert!(matches!(s.add(5), Err(ItemStackError::ExceedsStackSize)));
    assert_eq!(s.count(), 60);
    assert_eq!(s.add(4).unwrap(), 64);
    assert_eq!(s.unchecked_add(10), 74);
    assert_eq!(s.unchecked_set_count(-3), -3);
}

#[test]
fn remove_takes_items_away() {
    let r = registry();
    let mut s = ItemStack::new(&r, 1, 5, 0);
    assert!(matches!(s.remove(5), Err(ItemStackError::EmptyStack)));
    assert!(matches!(s.remove(6), Err(ItemStackError::NotEnoughAmount)));
    assert_eq!(s.count(), 5);
    assert_eq!(s.remove(2).unwrap(), 3);
    assert_eq!(s.count(), 3);
}

#[test]
fn set_item_checks_stack_size() {
    let r = registry();
    let mut s = ItemStack::new(&r, 1, 5, 0);
    let sword = ItemStackType::Item(r.get_item(256).unwrap());
    assert!(matches!(s.set_item(sword), Err(ItemStackError::ExceedsStackSize)));
    assert_eq!(s.id(), 1);
    let stick = ItemStackType::Item(r.get_item(280).unwrap());
    assert_eq!(s.set_item(stick).unwrap(), stick);
    assert_eq!(s.id(), 280);
    assert_eq!(s.unchecked_set_item(sword), sword);
    assert_eq!(s.count(), 5);
}

#[test]
fn get_item_is_one() {
    let r = registry();
    let s = ItemStack::new(&r, 1, 5, 7);
    let one = s.get_item();
    assert_eq!(one.count(), 1);
    assert_eq!(one.damage_taken(), 7);
    assert_eq!(one.id(), 1);
}

#[test]
fn take_splits() {
    let r = registry();
    let s = ItemStack::new(&r, 1, 10, 2);
    let (rest, taken) = s.take(3);
    assert_eq!(rest.unwrap().count(), 7);
    assert_eq!(taken.count(), 3);
    assert_eq!(taken.damage_taken(), 2);
    let (none, same) = s.take(11);
    assert!(none.is_none());
    assert_eq!(same, s);
}

#[test]
fn take_half_rounds_taken_part_up() {
    let r = registry();
    let (rest, taken) = ItemStack::new(&r, 1, 7, 0).take_half();
    assert_eq!(taken.count(), 4);
    assert_eq!(rest.unwrap().count(), 3);
    let (rest, taken) = ItemStack::new(&r, 1, 8, 0).take_half();
    assert_eq!(taken.count(), 4);
    assert_eq!(rest.unwrap().count(), 4);
    // A negative count halves toward zero, and is then too few to take.
    let (rest, taken) = ItemStack::new(&r, 1, -3, 0).take_half();
    assert!(rest.is_none());
    assert_eq!(taken.count(), -3);
}

#[test]
fn take_then_merge_restores() {
    let r = registry();
    let s = ItemStack::new(&r, 1, 20, 0);
    let (rest, taken) = s.take(6);
    let mut rest = rest.unwrap();
    rest.merge_with(taken).unwrap();
    assert_eq!(rest, s);
}

#[test]
fn merge_caps_at_stack_size() {
    let r = registry();
    let mut a = ItemStack::new(&r, 1, 40, 0);
    let b = ItemStack::new(&r, 1, 40, 0);
    a.merge_with(b).unwrap();
    assert_eq!(a.count(), 64);
}

#[test]
fn merge_refuses_other_damage() {
    let r = registry();
    let mut a = ItemStack::new(&r, 1, 4, 0);
    let b = ItemStack::new(&r, 1, 4, 1);
    assert!(matches!(a.merge_with(b), Err(ItemStackError::IncompatibleStacks)));
    let c = ItemStack::new(&r, 280, 4, 0);
    assert!(matches!(a.merge_with(c), Err(ItemStackError::IncompatibleStacks)));
    assert_eq!(a.count(), 4);
}

#[test]
fn transfer_moves_up_to_room() {
    let r = registry();
    let mut a = ItemStack::new(&r, 1, 30, 0);
    let mut b = ItemStack::new(&r, 1, 60, 0);
    a.transfer_to(10, &mut b).unwrap();
    assert_eq!(a.count(), 26);
    assert_eq!(b.count(), 64);
    assert_eq!(a.count() + b.count(), 90);
}

#[test]
fn transfer_errors() {
    let r = registry();
    let mut a = ItemStack::new(&r, 1, 5, 0);
    let mut b = ItemStack::new(&r, 1, 1, 0);
    assert!(matches!(a.transfer_to(5, &mut b), Err(ItemStackError::EmptyStack)));
    assert!(matches!(a.transfer_to(0, &mut b), Err(ItemStackError::EmptyStack)));
    assert!(matches!(a.transfer_to(9, &mut b), Err(ItemStackError::NotEnoughAmount)));
    assert_eq!(a.count(), 5);
    assert_eq!(b.count(), 1);
}

#[test]
fn drain_into_bounded_cases() {
    let r = registry();
    let mut other = ItemStack::new(&r, 280, 1, 0);
    let s = ItemStack::new(&r, 1, 5, 0);
    assert!(matches!(s.drain_into_bounded(2, &mut other), Err(ItemStackError::IncompatibleStacks)));

    let mut other = ItemStack::new(&r, 1, 60, 0);
    let left = ItemStack::new(&r, 1, 3, 0).drain_into_bounded(10, &mut other).unwrap();
    assert!(left.is_none());
    assert_eq!(other.count(), 63);

    let mut other = ItemStack::new(&r, 1, 60, 0);
    let left = ItemStack::new(&r, 1, 10, 0).drain_into_bounded(2, &mut other).unwrap().unwrap();
    assert_eq!(other.count(), 62);
    // The rest is set to the moved amount less the amount it held.
    assert_eq!(left.count(), -8);
}

#[test]
fn damage_breaks_tools_only() {
    let r = registry();
    let mut sword = ItemStack::new(&r, 256, 1, 0);
    assert!(!sword.damage(100));
    assert_eq!(sword.damage_taken(), 100);
    assert!(sword.damage(150));
    let mut stone = ItemStack::new(&r, 4, 1, 0);
    assert!(!stone.damage(1000));
    assert_eq!(stone.damage_taken(), 0);
    let mut stick = ItemStack::new(&r, 280, 1, 0);
    assert!(!stick.damage(1000));
    assert_eq!(stick.damage_taken(), 1000);
}

#[test]
fn comparisons() {
    let r = registry();
    let mut a = ItemStack::new(&r, 1, 5, 3);
    let b = ItemStack::new(&r, 1, 5, 4);
    assert!(a.has_same_type(&b));
    assert!(a.has_same_count(&b));
    assert!(!a.has_same_damage(&b));
    assert!(a.has_same_type_and_count(&b));
    assert!(!a.has_same_type_and_damage(&b));
    a.set_damage(4);
    assert!(a.has_same_type_and_damage(&b));
    assert!(a.stackable_types(&b));
    let sword = ItemStack::new(&r, 256, 1, 0);
    assert!(!sword.stackable_types(&sword));
}

#[test]
fn builder_builds_item_stacks() {
    let r = registry();
    let b = ItemStackBuilder::new(&r).count(12).damage(3);
    let s: ItemStack = b.into();
    assert_eq!(s.id(), 1);
    assert_eq!(s.count(), 12);
    assert_eq!(s.damage_taken(), 3);

    let stick = r.get_item(280).unwrap();
    let other = ItemStackBuilder::with_item(stick).damage(9);
    let b = ItemStackBuilder::new(&r).item(stick).apply_damage(None).same_meta_as(&other);
    let s = ItemStack::from(b);
    assert_eq!(s.id(), 280);
    assert_eq!(s.count(), 1);
    assert_eq!(s.damage_taken(), 9);
    let s = ItemStack::from(ItemStackBuilder::with_item(stick).apply_damage(Some(2)));
    assert_eq!(s.damage_taken(), 2);
}

#[test]
fn stacks_of_different_damage_do_not_stack() {
    let r = registry();
    let a = ItemStack::new(&r, 1, 5, 3);
    let b = ItemStack::new(&r, 1, 5, 4);
    assert!(!a.stackable_types(&b));
    let c = ItemStack::new(&r, 1, 60, 3);
    assert!(a.stackable_types(&c));
}
