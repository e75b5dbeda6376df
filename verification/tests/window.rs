use exopteron::item::registry::{ItemKind, ItemRegistry};
use exopteron::item::stack::ItemStack;
use exopteron::item::window::{
    can_insert, will_accept, Area, Mouse, PaintError, PaintState, SlotInfo, Window, WindowError,
    WindowKind, MAX_PAINT_SLOTS,
};

#[test]
fn shift_click_targets() {
    assert!(will_accept(Area::Storage));
    assert!(will_accept(Area::Hotbar));
    assert!(will_accept(Area::FurnaceFuel));
    assert!(!will_accept(Area::Helmet));
    assert!(!will_accept(Area::CraftingOutput));
}

#[test]
fn outputs_take_no_items() {
    assert!(!can_insert(Area::CraftingOutput));
    assert!(!can_insert(Area::FurnaceOutput));
    assert!(can_insert(Area::CraftingInput));
    assert!(can_insert(Area::Storage));
}

#[test]
fn drags_are_bounded() {
    let mut p = PaintState::new(Mouse::Left);
    for i in 0..MAX_PAINT_SLOTS {
        assert!(p.add_slot(i).is_ok());
    }
    assert!(matches!(p.add_slot(7), Err(PaintError::TooManySlots)));
}

fn registry() -> ItemRegistry {
    let mut r = ItemRegistry::new();
    r.register_item(ItemKind { id: 1, stack_size: 64, durability: None });
    r.register_item(ItemKind { id: 2, stack_size: 64, durability: None });
    r.register_item(ItemKind { id: 256, stack_size: 1, durability: Some(250) });
    r
}

/// The player's window: crafting output, crafting grid, armour, storage,
/// hotbar.
fn player_window() -> Window {
    let mut layout = Vec::new();
    layout.push(SlotInfo { area: Area::CraftingOutput, inventory: 0 });
    for _ in 1..5 {
        layout.push(SlotInfo { area: Area::CraftingInput, inventory: 0 });
    }
    for a in [Area::Helmet, Area::Chestplate, Area::Leggings, Area::Boots] {
        layout.push(SlotInfo { area: a, inventory: 0 });
    }
    for _ in 9..36 {
        layout.push(SlotInfo { area: Area::Storage, inventory: 0 });
    }
    for _ in 36..45 {
        layout.push(SlotInfo { area: Area::Hotbar, inventory: 0 });
    }
    Window::new(WindowKind::Player, layout)
}

fn count_at(w: &Window, i: usize) -> i8 {
    w.item(i).unwrap().map(|s| s.count()).unwrap_or(0)
}

#[test]
fn left_click_picks_up_places_and_merges() {
    let r = registry();
    let mut w = player_window();
    w.set_item(10, Some(ItemStack::new(&r, 1, 10, 0))).unwrap();
    w.left_click(10).unwrap();
    assert!(w.item(10).unwrap().is_none());
    assert_eq!(w.cursor_item().unwrap().count(), 10);
    w.set_item(11, Some(ItemStack::new(&r, 1, 60, 0))).unwrap();
    w.left_click(11).unwrap();
    assert_eq!(count_at(&w, 11), 64);
    assert_eq!(w.cursor_item().unwrap().count(), 6);
    // A different kind swaps with the cursor.
    w.set_item(12, Some(ItemStack::new(&r, 2, 3, 0))).unwrap();
    w.left_click(12).unwrap();
    assert_eq!(w.item(12).unwrap().unwrap().id(), 1);
    assert_eq!(w.cursor_item().unwrap().id(), 2);
    assert!(matches!(w.left_click(45), Err(WindowError::OutOfBounds(45))));
}

#[test]
fn right_click_takes_half_and_drops_one() {
    let r = registry();
    let mut w = player_window();
    w.set_item(20, Some(ItemStack::new(&r, 1, 7, 0))).unwrap();
    w.right_click(20).unwrap();
    assert_eq!(w.cursor_item().unwrap().count(), 4);
    assert_eq!(count_at(&w, 20), 3);
    w.right_click(21).unwrap();
    assert_eq!(count_at(&w, 21), 1);
    assert_eq!(w.cursor_item().unwrap().count(), 3);
    w.right_click(20).unwrap();
    assert_eq!(count_at(&w, 20), 4);
    assert_eq!(w.cursor_item().unwrap().count(), 2);
}

#[test]
fn shift_click_moves_storage_into_hotbar() {
    let r = registry();
    let mut w = player_window();
    w.set_item(9, Some(ItemStack::new(&r, 1, 40, 0))).unwrap();
    w.set_item(40, Some(ItemStack::new(&r, 1, 50, 0))).unwrap();
    w.shift_click(9).unwrap();
    // 14 fit onto the stack at 40, the other 26 go to the first empty hotbar slot.
    assert_eq!(count_at(&w, 40), 64);
    assert_eq!(count_at(&w, 36), 26);
    assert!(w.item(9).unwrap().is_none());
    // From the hotbar, items go to storage.
    w.shift_click(36).unwrap();
    assert_eq!(count_at(&w, 9), 26);
    assert!(w.item(36).unwrap().is_none());
}

#[test]
fn insert_item_fills_the_hotbar_first() {
    let r = registry();
    let mut w = player_window();
    w.set_item(37, Some(ItemStack::new(&r, 2, 63, 0))).unwrap();
    w.insert_item(Some(ItemStack::new(&r, 2, 5, 0))).unwrap();
    assert_eq!(count_at(&w, 37), 64);
    assert_eq!(count_at(&w, 36), 4);
}

#[test]
fn left_drag_shares_the_cursor_evenly() {
    let r = registry();
    let mut w = player_window();
    *w.cursor_item_mut() = Some(ItemStack::new(&r, 1, 10, 0));
    assert!(matches!(w.add_paint_slot(9), Err(WindowError::NoPaint)));
    w.begin_left_mouse_paint();
    for s in [9, 10, 11] {
        w.add_paint_slot(s).unwrap();
    }
    w.end_paint().unwrap();
    assert_eq!(count_at(&w, 9), 3);
    assert_eq!(count_at(&w, 10), 3);
    assert_eq!(count_at(&w, 11), 3);
    assert_eq!(w.cursor_item().unwrap().count(), 1);
    assert!(matches!(w.end_paint(), Err(WindowError::NoPaint)));
}

#[test]
fn right_drag_drops_one_each() {
    let r = registry();
    let mut w = player_window();
    *w.cursor_item_mut() = Some(ItemStack::new(&r, 1, 2, 0));
    w.begin_right_mouse_paint();
    for s in [9, 10, 11] {
        w.add_paint_slot(s).unwrap();
    }
    w.end_paint().unwrap();
    assert_eq!(count_at(&w, 9), 1);
    assert_eq!(count_at(&w, 10), 1);
    assert_eq!(count_at(&w, 11), 0);
    assert!(w.cursor_item().is_none());
}

#[test]
fn left_drag_with_fewer_items_than_slots_gives_one_each_in_order() {
    let r = registry();
    let mut w = player_window();
    *w.cursor_item_mut() = Some(ItemStack::new(&r, 1, 2, 0));
    w.begin_left_mouse_paint();
    for s in [12, 10, 11] {
        w.add_paint_slot(s).unwrap();
    }
    w.end_paint().unwrap();
    assert_eq!(count_at(&w, 12), 1);
    assert_eq!(count_at(&w, 10), 1);
    assert_eq!(count_at(&w, 11), 0);
    assert!(w.cursor_item().is_none());
}

#[test]
fn shift_click_keeps_what_does_not_fit() {
    let r = registry();
    let mut w = player_window();
    for i in 36..45 {
        w.set_item(i, Some(ItemStack::new(&r, 2, 64, 0))).unwrap();
    }
    w.set_item(38, Some(ItemStack::new(&r, 1, 60, 0))).unwrap();
    w.set_item(9, Some(ItemStack::new(&r, 1, 10, 0))).unwrap();
    w.shift_click(9).unwrap();
    assert_eq!(count_at(&w, 38), 64);
    // The hotbar is full; the other 6 stay in the clicked slot.
    assert_eq!(count_at(&w, 9), 6);
}

#[test]
fn click_dispatches_by_kind() {
    let r = registry();
    let mut w = player_window();
    w.set_item(9, Some(ItemStack::new(&r, 1, 8, 0))).unwrap();
    w.click(9, true, false).unwrap();
    assert_eq!(w.cursor_item().unwrap().count(), 4);
    w.click(9, false, true).unwrap();
    assert_eq!(count_at(&w, 36), 4);
    w.click(10, false, false).unwrap();
    assert_eq!(count_at(&w, 10), 4);
    assert!(w.cursor_item().is_none());
    assert!(matches!(w.click(99, false, false), Err(WindowError::OutOfBounds(99))));
}

#[test]
fn a_drag_takes_a_thousand_slots() {
    let mut w = player_window();
    assert!(matches!(w.add_paint_slot(9), Err(WindowError::NoPaint)));
    w.begin_right_mouse_paint();
    for _ in 0..1000 {
        w.add_paint_slot(9).unwrap();
    }
    assert!(matches!(w.add_paint_slot(9), Err(WindowError::TooManyPaintSlots)));
}
