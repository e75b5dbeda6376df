//! Inventory windows: the slots a player sees, the item held by the
//! cursor, and what clicks, shift-clicks and mouse drags do to them.
use vstd::prelude::*;

use super::stack::ItemStack;

verus! {

/// The areas of an inventory window.
#[derive(Clone, Copy, Debug, PartialEq, Eq, Structural)]
pub enum Area {
    Storage,
    CraftingOutput,
    CraftingInput,
    Helmet,
    Chestplate,
    Leggings,
    Boots,
    Hotbar,
    FurnaceIngredient,
    FurnaceFuel,
    FurnaceOutput,
}

/// Whether the area takes items moved there by a shift-click: storage, the
/// hotbar and the furnace's ingredient and fuel slots do.
pub fn will_accept(area: Area) -> (r: bool)
    ensures
        r == (area == Area::Storage || area == Area::Hotbar || area == Area::FurnaceIngredient
            || area == Area::FurnaceFuel),
{
    match area {
        Area::Storage => true,
        Area::CraftingOutput => false,
        Area::CraftingInput => false,
        Area::Helmet => false,
        Area::Chestplate => false,
        Area::Leggings => false,
        Area::Boots => false,
        Area::Hotbar => true,
        Area::FurnaceIngredient => true,
        Area::FurnaceFuel => true,
        Area::FurnaceOutput => false,
    }
}

/// Whether a player may put items into the area: everywhere but the
/// crafting and furnace outputs.
pub fn can_insert(area: Area) -> (r: bool)
    ensures
        r == !(area == Area::CraftingOutput || area == Area::FurnaceOutput),
{
    match area {
        Area::CraftingOutput => false,
        Area::FurnaceOutput => false,
        _ => true,
    }
}

/// The mouse button of a drag.
#[derive(Clone, Copy, Debug, PartialEq, Eq, Structural)]
pub enum Mouse {
    Left,
    Right,
}

/// The most slots a drag may cover.
pub const MAX_PAINT_SLOTS: usize = 1000;

/// Why a drag was refused.
#[derive(Debug)]
pub enum PaintError {
    /// More slots than any real client drags over.
    TooManySlots,
}

/// State for a paint operation (left mouse or right mouse drag).
#[derive(Debug)]
pub struct PaintState {
    mouse: Mouse,
    slots: Vec<usize>,
}

impl PaintState {
    pub closed spec fn mouse(&self) -> Mouse {
        self.mouse
    }

    /// The slots dragged over, in order.
    pub closed spec fn slots(&self) -> Seq<usize> {
        self.slots@
    }

    pub fn new(mouse: Mouse) -> (r: Self)
        ensures
            r.mouse() == mouse,
            r.slots() == Seq::<usize>::empty(),
    {
        Self { mouse, slots: Vec::new() }
    }

    /// Adds a slot to the drag. The slot is kept, and the drag refused
    /// once it covers more than `MAX_PAINT_SLOTS` slots.
    pub fn add_slot(&mut self, slot: usize) -> (r: Result<(), PaintError>)
        ensures
            final(self).slots() == old(self).slots().push(slot),
            final(self).mouse() == old(self).mouse(),
            r is Err <==> old(self).slots().len() + 1 > MAX_PAINT_SLOTS,
    {
        self.slots.push(slot);
        if self.slots.len() > MAX_PAINT_SLOTS {
            return Err(PaintError::TooManySlots);
        }
        Ok(())
    }
}


/// A slot holds nothing or a stack of between one item and its stack size.
pub open spec fn slot_wf(s: Option<ItemStack>) -> bool {
    match s {
        None => true,
        Some(st) => 1 <= st.amount() <= st.spec_stack_size(),
    }
}

/// The items of kind `id` and damage `meta` that a slot holds.
pub open spec fn slot_amount(s: Option<ItemStack>, id: i16, meta: i16) -> int {
    match s {
        Some(st) => if st.spec_id() == id && st.meta() == meta {
            st.amount() as int
        } else {
            0
        },
        None => 0,
    }
}

/// The items of kind `id` and damage `meta` that the slots hold together.
pub open spec fn slots_amount(s: Seq<Option<ItemStack>>, id: i16, meta: i16) -> int
    decreases s.len(),
{
    if s.len() == 0 {
        0
    } else {
        slots_amount(s.drop_last(), id, meta) + slot_amount(s.last(), id, meta)
    }
}

/// Whether two slots may be merged: either is empty, or both hold the same
/// kind with the same damage and that kind stacks beyond one item.
pub open spec fn spec_mergable(a: Option<ItemStack>, b: Option<ItemStack>) -> bool {
    match (a, b) {
        (Some(x), Some(y)) => x.spec_id() == y.spec_id() && x.meta() == y.meta()
            && x.spec_stack_size() > 1 && y.spec_stack_size() > 1,
        _ => true,
    }
}

pub open spec fn min_int(a: int, b: int) -> int {
    if a < b {
        a
    } else {
        b
    }
}

/// How many items a transfer of at most `n` moves from `from` to `to`: as
/// many as `from` holds and, into a stack of the same kind and damage, as
/// many as fit.
pub open spec fn moved(from: Option<ItemStack>, to: Option<ItemStack>, n: i8) -> int {
    match from {
        None => 0,
        Some(f) => if n <= 0 {
            0
        } else {
            match to {
                None => min_int(n as int, f.amount() as int),
                Some(t) => if f.spec_id() == t.spec_id() && f.meta() == t.meta() {
                    let k = min_int(
                        min_int(n as int, f.amount() as int),
                        t.spec_stack_size() - t.amount(),
                    );
                    if k < 0 {
                        0
                    } else {
                        k
                    }
                } else {
                    0
                },
            }
        },
    }
}

/// The two slots after a transfer of at most `n` items from `from` to `to`.
pub open spec fn spec_transfer(from: Option<ItemStack>, to: Option<ItemStack>, n: i8) -> (
    Option<ItemStack>,
    Option<ItemStack>,
) {
    let k = moved(from, to, n);
    if k <= 0 {
        (from, to)
    } else {
        let f = from->0;
        (
            if f.amount() == k {
                None
            } else {
                Some(f.with_amount((f.amount() - k) as i8))
            },
            match to {
                None => Some(f.with_amount(k as i8)),
                Some(t) => Some(t.with_amount((t.amount() + k) as i8)),
            },
        )
    }
}

/// A transfer keeps both slots valid and loses no item.
pub proof fn lemma_transfer(from: Option<ItemStack>, to: Option<ItemStack>, n: i8)
    requires
        slot_wf(from),
        slot_wf(to),
    ensures
        slot_wf(spec_transfer(from, to, n).0),
        slot_wf(spec_transfer(from, to, n).1),
        forall|id: i16, meta: i16|
            #![trigger slot_amount(spec_transfer(from, to, n).0, id, meta)]
            slot_amount(spec_transfer(from, to, n).0, id, meta) + slot_amount(
                spec_transfer(from, to, n).1,
                id,
                meta,
            ) == slot_amount(from, id, meta) + slot_amount(to, id, meta),
{
    let k = moved(from, to, n);
    if k > 0 {
        let f = from->0;
        f.lemma_with_amount((f.amount() - k) as i8);
        f.lemma_with_amount(k as i8);
        match to {
            None => {},
            Some(t) => {
                t.lemma_with_amount((t.amount() + k) as i8);
            },
        }
    }
}

/// Swapping two slots loses no item.
pub open spec fn conserves2(a: Option<ItemStack>, b: Option<ItemStack>, a2: Option<ItemStack>, b2: Option<ItemStack>) -> bool {
    forall|id: i16, meta: i16|
        #![trigger slot_amount(a2, id, meta)]
        slot_amount(a2, id, meta) + slot_amount(b2, id, meta) == slot_amount(a, id, meta)
            + slot_amount(b, id, meta)
}

/// Whether two slots may be merged.
pub fn is_mergable(a: &Option<ItemStack>, b: &Option<ItemStack>) -> (r: bool)
    ensures
        r == spec_mergable(*a, *b),
{
    match (a, b) {
        (Some(x), Some(y)) => x.stackable_types(y),
        _ => true,
    }
}

/// Moves at most `n` items from `from` to `to`: as many as `from` holds
/// and, into a stack of the same kind and damage, as many as fit. Returns
/// the number moved.
pub fn transfer(from: &mut Option<ItemStack>, to: &mut Option<ItemStack>, n: i8) -> (k: i8)
    requires
        slot_wf(*old(from)),
        slot_wf(*old(to)),
    ensures
        k == moved(*old(from), *old(to), n),
        (*final(from), *final(to)) == spec_transfer(*old(from), *old(to), n),
{
    let f = match *from {
        None => {
            return 0;
        },
        Some(f) => f,
    };
    if n <= 0 {
        return 0;
    }
    let fc = f.count();
    let k: i8 = match *to {
        None => if n < fc {
            n
        } else {
            fc
        },
        Some(t) => {
            if !t.has_same_type_and_damage(&f) {
                return 0;
            }
            let room: i8 = t.stack_size() - t.count();
            let a: i8 = if n < fc {
                n
            } else {
                fc
            };
            let b: i8 = if a < room {
                a
            } else {
                room
            };
            if b < 0 {
                0
            } else {
                b
            }
        },
    };
    if k <= 0 {
        return 0;
    }
    let (rest, taken) = f.take(k);
    if fc == k {
        *from = None;
    } else {
        *from = rest;
    }
    match *to {
        None => {
            *to = Some(taken);
        },
        Some(t) => {
            let mut t2 = t;
            t2.unchecked_add(k);
            *to = Some(t2);
        },
    }
    k
}


/// Slots, then a slot after them, keep the items of each kind.
pub proof fn lemma_slots_amount_update(s: Seq<Option<ItemStack>>, i: int, v: Option<ItemStack>, id: i16, meta: i16)
    requires
        0 <= i < s.len(),
    ensures
        slots_amount(s.update(i, v), id, meta) == slots_amount(s, id, meta) - slot_amount(
            s[i],
            id,
            meta,
        ) + slot_amount(v, id, meta),
    decreases s.len(),
{
    if i == s.len() - 1 {
        assert(s.update(i, v).drop_last() =~= s.drop_last());
    } else {
        lemma_slots_amount_update(s.drop_last(), i, v, id, meta);
        assert(s.update(i, v).drop_last() =~= s.drop_last().update(i, v));
    }
}

/// Why a window operation was refused.
#[derive(Debug)]
pub enum WindowError {
    /// No slot has this index.
    OutOfBounds(usize),
    /// No mouse drag was going on.
    NoPaint,
    /// The drag covers more slots than any real client drags over.
    TooManyPaintSlots,
}

/// The kinds of window, by what a shift-click does in them.
#[derive(Clone, Copy, Debug, PartialEq, Eq, Structural)]
pub enum WindowKind {
    /// The player's own inventory.
    Player,
    /// A chest, dispenser or other container beside the player's inventory.
    Generic,
    /// A crafting table beside the player's inventory.
    Crafting,
    /// A furnace beside the player's inventory.
    Furnace,
}

/// Where a slot of a window belongs: its area, and which of the window's
/// inventories holds it.
#[derive(Clone, Copy, Debug, PartialEq, Eq, Structural)]
pub struct SlotInfo {
    pub area: Area,
    pub inventory: u8,
}

/// A player's window: the slots of one or more inventories, by protocol
/// index, the item held by the cursor, and the mouse drag under way.
#[derive(Debug)]
pub struct Window {
    kind: WindowKind,
    layout: Vec<SlotInfo>,
    slots: Vec<Option<ItemStack>>,
    cursor_item: Option<ItemStack>,
    paint_state: Option<PaintState>,
}

/// The items of a kind and damage in the slots and the cursor together.
pub open spec fn window_amount(slots: Seq<Option<ItemStack>>, cursor: Option<ItemStack>, id: i16, meta: i16) -> int {
    slots_amount(slots, id, meta) + slot_amount(cursor, id, meta)
}

/// Whether the slots and cursor hold the same items of every kind and
/// damage as the other slots and cursor.
pub open spec fn same_items(
    s1: Seq<Option<ItemStack>>,
    c1: Option<ItemStack>,
    s2: Seq<Option<ItemStack>>,
    c2: Option<ItemStack>,
) -> bool {
    forall|id: i16, meta: i16|
        #![trigger window_amount(s1, c1, id, meta)]
        window_amount(s1, c1, id, meta) == window_amount(s2, c2, id, meta)
}

/// The index whose inventory a shift-click fills, by window kind: the
/// clicked slot's own in the player's window, else a slot of the player's
/// storage.
pub open spec fn shift_source(kind: WindowKind, slot: int) -> int {
    match kind {
        WindowKind::Generic => 28,
        WindowKind::Crafting => 12,
        _ => slot,
    }
}

impl Window {
    pub closed spec fn kind(&self) -> WindowKind {
        self.kind
    }

    /// Where each slot belongs, by index.
    pub closed spec fn layout(&self) -> Seq<SlotInfo> {
        self.layout@
    }

    /// What each slot holds, by index.
    pub closed spec fn slots(&self) -> Seq<Option<ItemStack>> {
        self.slots@
    }

    /// The item held by the cursor.
    pub closed spec fn cursor(&self) -> Option<ItemStack> {
        self.cursor_item
    }

    /// The drag under way, if any.
    pub closed spec fn paint(&self) -> Option<PaintState> {
        self.paint_state
    }

    /// The window's shape fits its kind and every slot and the cursor hold
    /// valid stacks.
    pub open spec fn wf(&self) -> bool {
        &&& Self::shape_fits(self.kind(), self.layout().len())
        &&& self.slots().len() == self.layout().len()
        &&& forall|i: int| 0 <= i < self.slots().len() ==> #[trigger] slot_wf(self.slots()[i])
        &&& slot_wf(self.cursor())
    }

    /// A container window holds the player's storage after the container:
    /// past index 28 for generic containers and past index 12 for a
    /// crafting table; the player's window has the slot at index 10.
    pub open spec fn shape_fits(kind: WindowKind, len: nat) -> bool {
        match kind {
            WindowKind::Generic => len > 28,
            WindowKind::Crafting => len > 12,
            WindowKind::Player => len > 10,
            WindowKind::Furnace => len > 10,
        }
    }

    /// A window of the given kind whose slots, laid out as given, are all
    /// empty, with nothing at the cursor and no drag.
    pub fn new(kind: WindowKind, layout: Vec<SlotInfo>) -> (r: Self)
        requires
            Self::shape_fits(kind, layout@.len()),
        ensures
            r.wf(),
            r.kind() == kind,
            r.layout() == layout@,
            r.slots() == Seq::new(layout@.len(), |i: int| None::<ItemStack>),
            r.cursor() is None,
            r.paint() is None,
    {
        let mut slots: Vec<Option<ItemStack>> = Vec::new();
        let mut i: usize = 0;
        while i < layout.len()
            invariant
                i <= layout@.len(),
                slots@ == Seq::new(i as nat, |j: int| None::<ItemStack>),
            decreases layout@.len() - i,
        {
            slots.push(None);
            i = i + 1;
            assert(slots@ =~= Seq::new(i as nat, |j: int| None::<ItemStack>));
        }
        Window { kind, layout, slots, cursor_item: None, paint_state: None }
    }

    /// The number of slots.
    pub fn len(&self) -> (r: usize)
        ensures
            r == self.slots().len(),
    {
        self.slots.len()
    }

    /// What the slot at `index` holds.
    pub fn item(&self, index: usize) -> (r: Result<Option<ItemStack>, WindowError>)
        ensures
            index < self.slots().len() ==> r == Ok::<Option<ItemStack>, WindowError>(
                self.slots()[index as int],
            ),
            index >= self.slots().len() ==> (r matches Err(WindowError::OutOfBounds(i)) && i == index),
    {
        if index >= self.slots.len() {
            return Err(WindowError::OutOfBounds(index));
        }
        Ok(self.slots[index])
    }

    /// Puts `item` in the slot at `index`.
    pub fn set_item(&mut self, index: usize, item: Option<ItemStack>) -> (r: Result<(), WindowError>)
        requires
            old(self).wf(),
            slot_wf(item),
        ensures
            final(self).wf(),
            final(self).kind() == old(self).kind(),
            final(self).layout() == old(self).layout(),
            final(self).cursor() == old(self).cursor(),
            final(self).paint() == old(self).paint(),
            index < old(self).slots().len() ==> r is Ok && final(self).slots() == old(self).slots().update(
                index as int,
                item,
            ),
            index >= old(self).slots().len() ==> (r matches Err(WindowError::OutOfBounds(i)) && i
                == index) && final(self).slots() == old(self).slots(),
    {
        if index >= self.slots.len() {
            return Err(WindowError::OutOfBounds(index));
        }
        self.slots.set(index, item);
        Ok(())
    }

    /// The item held by the cursor.
    pub fn cursor_item(&self) -> (r: Option<ItemStack>)
        ensures
            r == self.cursor(),
    {
        self.cursor_item
    }

    /// The item held by the cursor, to change in place.
    pub fn cursor_item_mut(&mut self) -> (r: &mut Option<ItemStack>)
        ensures
            *r == old(self).cursor(),
            final(self).cursor() == *final(r),
            final(self).kind() == old(self).kind(),
            final(self).layout() == old(self).layout(),
            final(self).slots() == old(self).slots(),
            final(self).paint() == old(self).paint(),
    {
        &mut self.cursor_item
    }

    /// Starts a left mouse drag.
    pub fn begin_left_mouse_paint(&mut self)
        ensures
            (final(self).paint() matches Some(p) && p.mouse() == Mouse::Left && p.slots().len() == 0),
            final(self).kind() == old(self).kind(),
            final(self).layout() == old(self).layout(),
            final(self).slots() == old(self).slots(),
            final(self).cursor() == old(self).cursor(),
    {
        self.paint_state = Some(PaintState::new(Mouse::Left));
    }

    /// Starts a right mouse drag.
    pub fn begin_right_mouse_paint(&mut self)
        ensures
            (final(self).paint() matches Some(p) && p.mouse() == Mouse::Right && p.slots().len() == 0),
            final(self).kind() == old(self).kind(),
            final(self).layout() == old(self).layout(),
            final(self).slots() == old(self).slots(),
            final(self).cursor() == old(self).cursor(),
    {
        self.paint_state = Some(PaintState::new(Mouse::Right));
    }

    /// Adds a slot to the drag under way.
    pub fn add_paint_slot(&mut self, slot: usize) -> (r: Result<(), WindowError>)
        ensures
            final(self).kind() == old(self).kind(),
            final(self).layout() == old(self).layout(),
            final(self).slots() == old(self).slots(),
            final(self).cursor() == old(self).cursor(),
            old(self).paint() is None ==> (r matches Err(WindowError::NoPaint) && final(self).paint() is None),
            old(self).paint() matches Some(p) ==> (final(self).paint() matches Some(q)
                && q.mouse() == p.mouse() && q.slots() == p.slots().push(slot)
                && (r is Err <==> paint_refuses(p.slots().len()))
                && (r is Err ==> r matches Err(WindowError::TooManyPaintSlots))),
    {
        match &mut self.paint_state {
            Some(state) => match state.add_slot(slot) {
                Ok(()) => Ok(()),
                Err(_) => Err(WindowError::TooManyPaintSlots),
            },
            None => Err(WindowError::NoPaint),
        }
    }
}


pub open spec fn spec_can_insert(area: Area) -> bool {
    !(area == Area::CraftingOutput || area == Area::FurnaceOutput)
}

/// The clicked slot and the cursor after a left click on a slot of `area`.
/// Where the player may put items, the cursor's stack merges into a
/// mergeable stack in the slot, or else the two swap. In an output slot, a
/// mergeable stack in the slot merges into the cursor's, or an empty cursor
/// picks up what the slot holds.
pub open spec fn spec_left_click(slot: Option<ItemStack>, cursor: Option<ItemStack>, area: Area) -> (
    Option<ItemStack>,
    Option<ItemStack>,
) {
    if spec_can_insert(area) {
        if slot is Some && cursor is Some && spec_mergable(cursor, slot) {
            let (c2, s2) = spec_transfer(cursor, slot, 127);
            (s2, c2)
        } else {
            (cursor, slot)
        }
    } else if slot is Some && cursor is Some && spec_mergable(cursor, slot) {
        spec_transfer(slot, cursor, 127)
    } else if cursor is None {
        (None, slot)
    } else {
        (slot, cursor)
    }
}

/// Half of a stack, rounded up.
pub open spec fn half_up(s: Option<ItemStack>) -> i8 {
    ((s->0.amount() + 1) / 2) as i8
}

/// Whether a right click replaces the cursor's stack, losing it: both hold
/// stacks that cannot merge, in a slot the player may not put items into.
pub open spec fn right_click_drops_cursor(slot: Option<ItemStack>, cursor: Option<ItemStack>, area: Area) -> bool {
    slot is Some && cursor is Some && !spec_can_insert(area) && !spec_mergable(cursor, slot)
}

/// The clicked slot and the cursor after a right click on a slot of
/// `area`. With stacks in both: one item of the cursor's goes into a
/// mergeable stack the player may add to; from an output slot, up to 64
/// items come onto the cursor's mergeable stack; else the two swap, or,
/// in an output slot, the cursor takes the slot's stack and its own is
/// gone. A stack alone in the slot comes to the cursor whole from the
/// crafting output, else its larger half does. A stack alone at the
/// cursor drops one item into the slot where the player may put items.
pub open spec fn spec_right_click(slot: Option<ItemStack>, cursor: Option<ItemStack>, area: Area) -> (
    Option<ItemStack>,
    Option<ItemStack>,
) {
    if slot is Some && cursor is Some {
        if spec_mergable(slot, cursor) && spec_can_insert(area) {
            let (c2, s2) = spec_transfer(cursor, slot, 1);
            (s2, c2)
        } else if !spec_can_insert(area) && spec_mergable(cursor, slot) {
            spec_transfer(slot, cursor, 64)
        } else if spec_can_insert(area) {
            (cursor, slot)
        } else {
            (None, slot)
        }
    } else if slot is Some {
        if area == Area::CraftingOutput {
            (None, slot)
        } else {
            spec_transfer(slot, None, half_up(slot))
        }
    } else if cursor is Some {
        if spec_can_insert(area) {
            let (c2, s2) = spec_transfer(cursor, None, 1);
            (s2, c2)
        } else {
            (slot, cursor)
        }
    } else {
        (slot, cursor)
    }
}

/// Replacing one slot and the cursor by stacks that hold the same items
/// keeps the items of the window.
proof fn lemma_replace_one(
    s: Seq<Option<ItemStack>>,
    c: Option<ItemStack>,
    i: int,
    s2: Option<ItemStack>,
    c2: Option<ItemStack>,
)
    requires
        0 <= i < s.len(),
        conserves2(s[i], c, s2, c2),
    ensures
        same_items(s, c, s.update(i, s2), c2),
{
    assert forall|id: i16, meta: i16| #[trigger]
        window_amount(s, c, id, meta) == window_amount(s.update(i, s2), c2, id, meta) by {
        lemma_slots_amount_update(s, i, s2, id, meta);
        assert(slot_amount(s2, id, meta) + slot_amount(c2, id, meta) == slot_amount(s[i], id, meta)
            + slot_amount(c, id, meta));
    }
}

impl Window {
    fn click_result(&self, slot_idx: usize, right: bool) -> (r: (Option<ItemStack>, Option<ItemStack>))
        requires
            self.wf(),
            slot_idx < self.slots().len(),
        ensures
            !right ==> r == spec_left_click(
                self.slots()[slot_idx as int],
                self.cursor(),
                self.layout()[slot_idx as int].area,
            ),
            right ==> r == spec_right_click(
                self.slots()[slot_idx as int],
                self.cursor(),
                self.layout()[slot_idx as int].area,
            ),
            slot_wf(r.0),
            slot_wf(r.1),
            right && right_click_drops_cursor(
                self.slots()[slot_idx as int],
                self.cursor(),
                self.layout()[slot_idx as int].area,
            ) || conserves2(self.slots()[slot_idx as int], self.cursor(), r.0, r.1),
    {
        let area = self.layout[slot_idx].area;
        let mut slot = self.slots[slot_idx];
        let mut cursor = self.cursor_item;
        assert(slot_wf(slot));
        let ghost s0 = slot;
        let ghost c0 = cursor;
        let ins = can_insert(area);
        let both = slot.is_some() && cursor.is_some();
        if !right {
            if ins {
                if both && is_mergable(&cursor, &slot) {
                    proof { lemma_transfer(cursor, slot, 127); }
                    transfer(&mut cursor, &mut slot, 127);
                } else {
                    let t = slot;
                    slot = cursor;
                    cursor = t;
                }
            } else if both && is_mergable(&cursor, &slot) {
                proof { lemma_transfer(slot, cursor, 127); }
                transfer(&mut slot, &mut cursor, 127);
            } else if cursor.is_none() {
                cursor = slot;
                slot = None;
            }
        } else if both {
            if is_mergable(&slot, &cursor) && ins {
                proof { lemma_transfer(cursor, slot, 1); }
                transfer(&mut cursor, &mut slot, 1);
            } else if !ins && is_mergable(&cursor, &slot) {
                proof { lemma_transfer(slot, cursor, 64); }
                transfer(&mut slot, &mut cursor, 64);
            } else if ins {
                let t = slot;
                slot = cursor;
                cursor = t;
            } else {
                cursor = slot;
                slot = None;
            }
        } else if slot.is_some() {
            if area == Area::CraftingOutput {
                cursor = slot;
                slot = None;
            } else {
                let c = slot.unwrap().count();
                let h: i8 = ((c as i16 + 1) / 2) as i8;
                assert(h == half_up(s0));
                proof { lemma_transfer(slot, cursor, h); }
                transfer(&mut slot, &mut cursor, h);
            }
        } else if cursor.is_some() {
            if ins {
                proof { lemma_transfer(cursor, slot, 1); }
                transfer(&mut cursor, &mut slot, 1);
            }
        }
        (slot, cursor)
    }

    /// Left-clicks the slot at `slot_idx`; see `spec_left_click`. No item is
    /// gained or lost. Crafting recipes are not part of this library, so the
    /// crafting output slot is left as the click leaves it.
    pub fn left_click(&mut self, slot_idx: usize) -> (r: Result<(), WindowError>)
        requires
            old(self).wf(),
        ensures
            final(self).wf(),
            final(self).kind() == old(self).kind(),
            final(self).layout() == old(self).layout(),
            final(self).paint() == old(self).paint(),
            slot_idx >= old(self).slots().len() ==> (r matches Err(WindowError::OutOfBounds(i))
                && i == slot_idx) && final(self).slots() == old(self).slots() && final(self).cursor()
                == old(self).cursor(),
            slot_idx < old(self).slots().len() ==> r is Ok && ({
                let (s2, c2) = spec_left_click(
                    old(self).slots()[slot_idx as int],
                    old(self).cursor(),
                    old(self).layout()[slot_idx as int].area,
                );
                final(self).slots() == old(self).slots().update(slot_idx as int, s2)
                    && final(self).cursor() == c2
            }),
            same_items(old(self).slots(), old(self).cursor(), final(self).slots(), final(self).cursor()),
    {
        if slot_idx >= self.slots.len() {
            return Err(WindowError::OutOfBounds(slot_idx));
        }
        let (s2, c2) = self.click_result(slot_idx, false);
        proof {
            lemma_replace_one(self.slots@, self.cursor_item, slot_idx as int, s2, c2);
        }
        self.slots.set(slot_idx, s2);
        self.cursor_item = c2;
        Ok(())
    }

    /// Right-clicks the slot at `slot_idx`; see `spec_right_click`. No item
    /// is gained or lost, but where the cursor's stack is replaced
    /// (`right_click_drops_cursor`).
    pub fn right_click(&mut self, slot_index: usize) -> (r: Result<(), WindowError>)
        requires
            old(self).wf(),
        ensures
            final(self).wf(),
            final(self).kind() == old(self).kind(),
            final(self).layout() == old(self).layout(),
            final(self).paint() == old(self).paint(),
            slot_index >= old(self).slots().len() ==> (r matches Err(WindowError::OutOfBounds(i))
                && i == slot_index) && final(self).slots() == old(self).slots() && final(self).cursor()
                == old(self).cursor(),
            slot_index < old(self).slots().len() ==> r is Ok && ({
                let (s2, c2) = spec_right_click(
                    old(self).slots()[slot_index as int],
                    old(self).cursor(),
                    old(self).layout()[slot_index as int].area,
                );
                final(self).slots() == old(self).slots().update(slot_index as int, s2)
                    && final(self).cursor() == c2
            }),
            !(slot_index < old(self).slots().len() && right_click_drops_cursor(
                old(self).slots()[slot_index as int],
                old(self).cursor(),
                old(self).layout()[slot_index as int].area,
            )) ==> same_items(
                old(self).slots(),
                old(self).cursor(),
                final(self).slots(),
                final(self).cursor(),
            ),
    {
        if slot_index >= self.slots.len() {
            return Err(WindowError::OutOfBounds(slot_index));
        }
        let (s2, c2) = self.click_result(slot_index, true);
        proof {
            if !right_click_drops_cursor(
                self.slots@[slot_index as int],
                self.cursor_item,
                self.layout@[slot_index as int].area,
            ) {
                lemma_replace_one(self.slots@, self.cursor_item, slot_index as int, s2, c2);
            }
        }
        self.slots.set(slot_index, s2);
        self.cursor_item = c2;
        Ok(())
    }
}


/// Whether the slot at `j` is one a move into `area` of inventory `inv`
/// may fill: it is not `skip`, and it lies in that area of that inventory.
pub open spec fn fill_target(layout: Seq<SlotInfo>, j: int, inv: u8, area: Area, skip: int) -> bool {
    j != skip && layout[j].inventory == inv && layout[j].area == area
}

/// Whether a fill of `area` moves items into slot `k`, holding `t`, from
/// `c`: an empty slot when filling empty slots, else a stack that `c` may
/// merge with.
pub open spec fn fill_takes(t: Option<ItemStack>, c: Option<ItemStack>, into_empty: bool) -> bool {
    if into_empty {
        t is None
    } else {
        t is Some && spec_mergable(c, t)
    }
}

/// The slots and the moving stack after a fill has passed the first `j`
/// slots: each slot of `area` in inventory `inv` but `skip`, in index order,
/// that the fill takes into receives all of the moving stack that fits.
pub open spec fn spec_fill(
    slots: Seq<Option<ItemStack>>,
    src: Option<ItemStack>,
    layout: Seq<SlotInfo>,
    inv: u8,
    area: Area,
    skip: int,
    into_empty: bool,
    j: nat,
) -> (Seq<Option<ItemStack>>, Option<ItemStack>)
    decreases j,
{
    if j == 0 {
        (slots, src)
    } else {
        let (s, c) = spec_fill(slots, src, layout, inv, area, skip, into_empty, (j - 1) as nat);
        let k = j - 1;
        if fill_target(layout, k, inv, area, skip) && fill_takes(s[k], c, into_empty) {
            let (c2, t2) = spec_transfer(c, s[k], 127);
            (s.update(k, t2), c2)
        } else {
            (s, c)
        }
    }
}

/// One pass of a shift-click or an insertion: unless an earlier pass
/// emptied the moving stack, or `go` is false, fill `area`; the flag tells
/// whether the moving stack is now empty.
pub open spec fn fill_step(
    st: (Seq<Option<ItemStack>>, Option<ItemStack>, bool),
    go: bool,
    layout: Seq<SlotInfo>,
    inv: u8,
    area: Area,
    skip: int,
    into_empty: bool,
) -> (Seq<Option<ItemStack>>, Option<ItemStack>, bool) {
    if !st.2 && go {
        let (s, c) = spec_fill(st.0, st.1, layout, inv, area, skip, into_empty, st.0.len());
        (s, c, c is None)
    } else {
        st
    }
}

/// The four passes: onto mergeable stacks of the hotbar, then of storage,
/// then into empty hotbar slots, then into empty storage slots, stopping
/// once the moving stack is empty. `hotbar` and `storage` tell which areas
/// take part.
pub open spec fn spec_passes(
    slots: Seq<Option<ItemStack>>,
    item: Option<ItemStack>,
    layout: Seq<SlotInfo>,
    inv: u8,
    skip: int,
    hotbar: bool,
    storage: bool,
) -> (Seq<Option<ItemStack>>, Option<ItemStack>, bool) {
    let s0 = (slots, item, false);
    let s1 = fill_step(s0, hotbar, layout, inv, Area::Hotbar, skip, false);
    let s2 = fill_step(s1, storage, layout, inv, Area::Storage, skip, false);
    let s3 = fill_step(s2, hotbar, layout, inv, Area::Hotbar, skip, true);
    fill_step(s3, storage, layout, inv, Area::Storage, skip, true)
}

/// The slots after `insert_item(item)`: the passes over the hotbar and
/// storage of the inventory that holds slot 10. What is left over is
/// `spec_insert(..).1`, and is dropped.
pub open spec fn spec_insert(slots: Seq<Option<ItemStack>>, layout: Seq<SlotInfo>, item: Option<ItemStack>) -> (
    Seq<Option<ItemStack>>,
    Option<ItemStack>,
    bool,
) {
    spec_passes(slots, item, layout, layout[10].inventory, slots.len() as int, true, true)
}

/// The slots after a shift-click on `slot`: nothing changes for an empty
/// slot or in a furnace window; else the slot's stack goes through the
/// passes over the player's hotbar and storage, leaving out the slot itself
/// and, but in a container window, the slot's own area, and the slot keeps
/// what did not fit.
pub open spec fn spec_shift_click(
    slots: Seq<Option<ItemStack>>,
    layout: Seq<SlotInfo>,
    kind: WindowKind,
    slot: int,
) -> Seq<Option<ItemStack>> {
    if slots[slot] is None || kind == WindowKind::Furnace {
        slots
    } else {
        let exclude = kind != WindowKind::Generic;
        let own = layout[slot].area;
        let r = spec_passes(
            slots.update(slot, None),
            slots[slot],
            layout,
            layout[shift_source(kind, slot)].inventory,
            slot,
            !(exclude && own == Area::Hotbar),
            !(exclude && own == Area::Storage),
        );
        r.0.update(slot, r.1)
    }
}

impl Window {
    /// Moves the items of `src` into the slots of `area` in inventory `inv`,
    /// in index order, passing over the slot at `skip`: into stacks it may
    /// merge with, or, with `into_empty`, into empty slots.
    fn fill_area(&mut self, src: &mut Option<ItemStack>, inv: u8, area: Area, skip: usize, into_empty: bool)
        requires
            old(self).wf(),
            slot_wf(*old(src)),
        ensures
            final(self).wf(),
            slot_wf(*final(src)),
            final(self).kind() == old(self).kind(),
            final(self).layout() == old(self).layout(),
            final(self).cursor() == old(self).cursor(),
            final(self).paint() == old(self).paint(),
            final(self).slots().len() == old(self).slots().len(),
            same_items(old(self).slots(), *old(src), final(self).slots(), *final(src)),
            forall|j: int|
                0 <= j < old(self).slots().len() && #[trigger] final(self).slots()[j] != old(self).slots()[j]
                    ==> fill_target(old(self).layout(), j, inv, area, skip as int),
            (final(self).slots(), *final(src)) == spec_fill(
                old(self).slots(),
                *old(src),
                old(self).layout(),
                inv,
                area,
                skip as int,
                into_empty,
                old(self).slots().len(),
            ),
    {
        let ghost s0 = self.slots@;
        let ghost c0 = *src;
        let mut j: usize = 0;
        while j < self.slots.len()
            invariant
                self.wf(),
                slot_wf(*src),
                self.kind() == old(self).kind(),
                self.layout() == old(self).layout(),
                self.cursor() == old(self).cursor(),
                self.paint() == old(self).paint(),
                self.slots().len() == s0.len(),
                s0 == old(self).slots(),
                c0 == *old(src),
                j <= self.slots().len(),
                same_items(s0, c0, self.slots(), *src),
                forall|k: int|
                    0 <= k < s0.len() && #[trigger] self.slots()[k] != s0[k] ==> fill_target(
                        self.layout(),
                        k,
                        inv,
                        area,
                        skip as int,
                    ),
                (self.slots(), *src) == spec_fill(
                    s0,
                    c0,
                    self.layout(),
                    inv,
                    area,
                    skip as int,
                    into_empty,
                    j as nat,
                ),
            decreases self.slots().len() - j,
        {
            let info = self.layout[j];
            if j != skip && info.inventory == inv && info.area == area {
                let mut target = self.slots[j];
                assert(slot_wf(target));
                let go = if into_empty {
                    target.is_none()
                } else {
                    target.is_some() && is_mergable(src, &target)
                };
                if go {
                    let ghost before = self.slots@;
                    let ghost sb = *src;
                    proof {
                        lemma_transfer(*src, target, 127);
                    }
                    transfer(src, &mut target, 127);
                    self.slots.set(j, target);
                    proof {
                        assert forall|id: i16, meta: i16| #[trigger]
                            window_amount(s0, c0, id, meta) == window_amount(self.slots@, *src, id, meta) by {
                            assert(window_amount(s0, c0, id, meta) == window_amount(before, sb, id, meta));
                            lemma_slots_amount_update(before, j as int, target, id, meta);
                            assert(slot_amount(*src, id, meta) + slot_amount(target, id, meta)
                                == slot_amount(sb, id, meta) + slot_amount(before[j as int], id, meta));
                        }
                    }
                }
            }
            j = j + 1;
        }
    }

    /// Moves `item` into the hotbar, then storage, of the inventory that
    /// holds slot 10: first onto stacks it merges with, then into empty
    /// slots; see `spec_insert`. What does not fit is dropped. No slot
    /// outside those areas changes, and no item is gained: the slots gain
    /// what `item` held but the remainder.
    pub fn insert_item(&mut self, item: Option<ItemStack>) -> (r: Result<(), WindowError>)
        requires
            old(self).wf(),
            slot_wf(item),
        ensures
            r is Ok,
            final(self).wf(),
            final(self).kind() == old(self).kind(),
            final(self).layout() == old(self).layout(),
            final(self).cursor() == old(self).cursor(),
            final(self).paint() == old(self).paint(),
            final(self).slots() == spec_insert(old(self).slots(), old(self).layout(), item).0,
            slot_wf(spec_insert(old(self).slots(), old(self).layout(), item).1),
            same_items(
                old(self).slots(),
                item,
                final(self).slots(),
                spec_insert(old(self).slots(), old(self).layout(), item).1,
            ),
            forall|j: int|
                0 <= j < old(self).slots().len() && #[trigger] final(self).slots()[j] != old(self).slots()[j]
                    ==> old(self).layout()[j].inventory == old(self).layout()[10].inventory && (
                    old(self).layout()[j].area == Area::Hotbar || old(self).layout()[j].area
                        == Area::Storage),
    {
        let inv = self.layout[10].inventory;
        let none = self.slots.len();
        let mut slot_item = item;
        let ghost lay = self.layout@;
        let ghost st0 = (self.slots@, item, false);
        self.fill_area(&mut slot_item, inv, Area::Hotbar, none, false);
        let ghost st1 = (self.slots@, slot_item, slot_item is None);
        assert(st1 == fill_step(st0, true, lay, inv, Area::Hotbar, none as int, false));
        if slot_item.is_some() {
            self.fill_area(&mut slot_item, inv, Area::Storage, none, false);
        }
        let ghost st2 = (self.slots@, slot_item, slot_item is None);
        assert(st2 == fill_step(st1, true, lay, inv, Area::Storage, none as int, false));
        if slot_item.is_some() {
            self.fill_area(&mut slot_item, inv, Area::Hotbar, none, true);
        }
        let ghost st3 = (self.slots@, slot_item, slot_item is None);
        assert(st3 == fill_step(st2, true, lay, inv, Area::Hotbar, none as int, true));
        if slot_item.is_some() {
            self.fill_area(&mut slot_item, inv, Area::Storage, none, true);
        }
        assert((self.slots@, slot_item, slot_item is None) == fill_step(
            st3,
            true,
            lay,
            inv,
            Area::Storage,
            none as int,
            true,
        ));
        Ok(())
    }

    /// Shift-clicks the slot at `slot`: its stack moves into the player's
    /// hotbar, then storage, first onto stacks it merges with, then into
    /// empty slots. In the player's window and at a crafting table the
    /// slot's own area is passed over; a furnace moves nothing. No item is
    /// gained or lost, the cursor stays, and only the clicked slot and the
    /// slots it moves into change.
    pub fn shift_click(&mut self, slot: usize) -> (r: Result<(), WindowError>)
        requires
            old(self).wf(),
        ensures
            final(self).wf(),
            final(self).kind() == old(self).kind(),
            final(self).layout() == old(self).layout(),
            final(self).cursor() == old(self).cursor(),
            final(self).paint() == old(self).paint(),
            slot >= old(self).slots().len() ==> (r matches Err(WindowError::OutOfBounds(i)) && i
                == slot) && final(self).slots() == old(self).slots(),
            slot < old(self).slots().len() ==> r is Ok,
            slot < old(self).slots().len() && (old(self).slots()[slot as int] is None
                || old(self).kind() == WindowKind::Furnace) ==> final(self).slots() == old(self).slots(),
            slot < old(self).slots().len() ==> final(self).slots() == spec_shift_click(
                old(self).slots(),
                old(self).layout(),
                old(self).kind(),
                slot as int,
            ),
            same_items(old(self).slots(), old(self).cursor(), final(self).slots(), final(self).cursor()),
            forall|j: int|
                0 <= j < old(self).slots().len() && #[trigger] final(self).slots()[j] != old(self).slots()[j]
                    ==> j == slot || (old(self).layout()[j].inventory == old(self).layout()[shift_source(
                    old(self).kind(),
                    slot as int,
                )].inventory && (old(self).layout()[j].area == Area::Hotbar || old(self).layout()[j].area
                    == Area::Storage) && (old(self).kind() != WindowKind::Generic ==> old(self).layout()[j].area
                    != old(self).layout()[slot as int].area)),
    {
        if slot >= self.slots.len() {
            return Err(WindowError::OutOfBounds(slot));
        }
        if self.slots[slot].is_none() {
            return Ok(());
        }
        let (inv, exclude) = match self.kind {
            WindowKind::Furnace => {
                return Ok(());
            },
            WindowKind::Player => (self.layout[slot].inventory, true),
            WindowKind::Generic => (self.layout[28].inventory, false),
            WindowKind::Crafting => (self.layout[12].inventory, true),
        };
        let own = self.layout[slot].area;
        let ghost s0 = self.slots@;
        let ghost c0 = self.cursor_item;
        let mut slot_item = self.slots[slot];
        assert(slot_wf(slot_item));
        self.slots.set(slot, None);
        proof {
            assert forall|id: i16, meta: i16| #[trigger]
                window_amount(s0, c0, id, meta) == window_amount(self.slots@, slot_item, id, meta) + slot_amount(c0, id, meta)
                by {
                lemma_slots_amount_update(s0, slot as int, None, id, meta);
            }
        }
        let ghost s1 = self.slots@;
        let ghost i1 = slot_item;
        let ghost lay = self.layout@;
        let hot = !(exclude && own == Area::Hotbar);
        let sto = !(exclude && own == Area::Storage);
        let mut done = false;
        let ghost st0 = (self.slots@, slot_item, done);
        if hot {
            self.fill_area(&mut slot_item, inv, Area::Hotbar, slot, false);
            done = slot_item.is_none();
        }
        let ghost st1 = (self.slots@, slot_item, done);
        assert(st1 == fill_step(st0, hot, lay, inv, Area::Hotbar, slot as int, false));
        if !done && sto {
            self.fill_area(&mut slot_item, inv, Area::Storage, slot, false);
            done = slot_item.is_none();
        }
        let ghost st2 = (self.slots@, slot_item, done);
        assert(st2 == fill_step(st1, sto, lay, inv, Area::Storage, slot as int, false));
        if !done && hot {
            self.fill_area(&mut slot_item, inv, Area::Hotbar, slot, true);
            done = slot_item.is_none();
        }
        let ghost st3 = (self.slots@, slot_item, done);
        assert(st3 == fill_step(st2, hot, lay, inv, Area::Hotbar, slot as int, true));
        if !done && sto {
            self.fill_area(&mut slot_item, inv, Area::Storage, slot, true);
            done = slot_item.is_none();
        }
        assert((self.slots@, slot_item, done) == fill_step(st3, sto, lay, inv, Area::Storage, slot as int, true));
        assert(inv == lay[shift_source(self.kind, slot as int)].inventory);
        let ghost s2 = self.slots@;
        assert(same_items(s1, i1, s2, slot_item));
        assert(s2[slot as int] is None);
        self.slots.set(slot, slot_item);
        proof {
            assert forall|id: i16, meta: i16| #[trigger]
                window_amount(s0, c0, id, meta) == window_amount(self.slots@, self.cursor_item, id, meta) by {
                assert(window_amount(s1, i1, id, meta) == window_amount(s2, slot_item, id, meta));
                lemma_slots_amount_update(s2, slot as int, slot_item, id, meta);
            }
        }
        Ok(())
    }
}


/// Whether `j` is among the slots of a drag.
pub open spec fn in_paint(ps: Seq<usize>, j: int) -> bool {
    exists|k: int| 0 <= k < ps.len() && #[trigger] ps[k] as int == j
}

/// How many of the first `k` dragged slots merge with the cursor's stack.
pub open spec fn count_mergable(slots: Seq<Option<ItemStack>>, cursor: Option<ItemStack>, ps: Seq<usize>, k: nat) -> nat
    decreases k,
{
    if k == 0 {
        0
    } else {
        count_mergable(slots, cursor, ps, (k - 1) as nat) + if spec_mergable(
            slots[ps[k - 1] as int],
            cursor,
        ) {
            1nat
        } else {
            0nat
        }
    }
}

/// The slots and the cursor after the first `k` dragged slots, in the
/// order they were added, each took up to `per` items from the cursor
/// where they merge with it, stopping once the cursor is empty.
pub open spec fn spec_spread(
    slots: Seq<Option<ItemStack>>,
    cursor: Option<ItemStack>,
    ps: Seq<usize>,
    per: i8,
    k: nat,
) -> (Seq<Option<ItemStack>>, Option<ItemStack>)
    decreases k,
{
    if k == 0 {
        (slots, cursor)
    } else {
        let (s, c) = spec_spread(slots, cursor, ps, per, (k - 1) as nat);
        let i = ps[k - 1] as int;
        if c is Some && spec_mergable(s[i], c) {
            let (c2, t2) = spec_transfer(c, s[i], per);
            (s.update(i, t2), c2)
        } else {
            (s, c)
        }
    }
}

/// How many items each slot of a left drag over `n` mergeable slots takes
/// from a cursor of `count` items: `count / n`, at least one. A count of
/// slots that wraps to a negative `i8` gives one.
pub open spec fn left_drag_share(count: i8, n: i8) -> i8 {
    if n > 0 {
        let q = count / n;
        if q < 1 {
            1
        } else {
            q as i8
        }
    } else {
        1
    }
}

/// The slots and the cursor after a drag ends. A left drag with a stack at
/// the cursor shares it among the dragged slots that merge with it, each
/// taking `left_drag_share` items in turn, the rest staying at the cursor;
/// with no such slot, nothing changes. A right drag drops one item into
/// each dragged slot that merges with the cursor, in turn.
pub open spec fn spec_finish(slots: Seq<Option<ItemStack>>, cursor: Option<ItemStack>, p: PaintState) -> (
    Seq<Option<ItemStack>>,
    Option<ItemStack>,
) {
    let ps = p.slots();
    match p.mouse() {
        Mouse::Left => if cursor is None {
            (slots, cursor)
        } else {
            let n = count_mergable(slots, cursor, ps, ps.len()) as i8;
            if n == 0 {
                (slots, cursor)
            } else {
                spec_spread(slots, cursor, ps, left_drag_share(cursor->0.amount(), n), ps.len())
            }
        },
        Mouse::Right => spec_spread(slots, cursor, ps, 1, ps.len()),
    }
}

proof fn lemma_spread_stops(
    slots: Seq<Option<ItemStack>>,
    cursor: Option<ItemStack>,
    ps: Seq<usize>,
    per: i8,
    k: nat,
    n: nat,
)
    requires
        k <= n,
        spec_spread(slots, cursor, ps, per, k).1 is None,
    ensures
        spec_spread(slots, cursor, ps, per, n) == spec_spread(slots, cursor, ps, per, k),
    decreases n - k,
{
    if k < n {
        lemma_spread_stops(slots, cursor, ps, per, k, (n - 1) as nat);
    }
}

impl Window {
    /// Every slot of the drag under way is a slot of the window.
    pub open spec fn paint_in_range(&self) -> bool {
        self.paint() matches Some(p) ==> p.in_range(self.slots().len())
    }

    /// Moves up to `per` items from the cursor into each slot of `ps` that
    /// merges with it, in order, until the cursor is empty.
    fn spread_cursor(&mut self, ps: &Vec<usize>, per: i8)
        requires
            old(self).wf(),
            forall|k: int| 0 <= k < ps@.len() ==> #[trigger] ps@[k] < old(self).slots().len(),
        ensures
            final(self).wf(),
            final(self).kind() == old(self).kind(),
            final(self).layout() == old(self).layout(),
            final(self).paint() == old(self).paint(),
            final(self).slots().len() == old(self).slots().len(),
            (final(self).slots(), final(self).cursor()) == spec_spread(
                old(self).slots(),
                old(self).cursor(),
                ps@,
                per,
                ps@.len(),
            ),
            same_items(old(self).slots(), old(self).cursor(), final(self).slots(), final(self).cursor()),
            forall|j: int|
                0 <= j < old(self).slots().len() && #[trigger] final(self).slots()[j] != old(self).slots()[j]
                    ==> in_paint(ps@, j),
    {
        let ghost s0 = self.slots@;
        let ghost c0 = self.cursor_item;
        let mut k: usize = 0;
        let mut stop = false;
        while k < ps.len() && !stop
            invariant
                self.wf(),
                self.kind() == old(self).kind(),
                self.layout() == old(self).layout(),
                self.paint() == old(self).paint(),
                self.slots().len() == s0.len(),
                s0 == old(self).slots(),
                c0 == old(self).cursor(),
                k <= ps@.len(),
                forall|m: int| 0 <= m < ps@.len() ==> #[trigger] ps@[m] < s0.len(),
                same_items(s0, c0, self.slots(), self.cursor()),
                forall|j: int|
                    0 <= j < s0.len() && #[trigger] self.slots()[j] != s0[j] ==> in_paint(ps@, j),
                (self.slots(), self.cursor()) == spec_spread(s0, c0, ps@, per, k as nat),
                stop ==> self.cursor() is None,
            decreases ps@.len() - k,
        {
            let s = ps[k];
            assert(ps@[k as int] < s0.len());
            let mut target = self.slots[s];
            let mut cur = self.cursor_item;
            assert(slot_wf(target));
            if cur.is_some() && is_mergable(&target, &cur) {
                let ghost before = self.slots@;
                proof {
                    lemma_transfer(cur, target, per);
                }
                transfer(&mut cur, &mut target, per);
                proof {
                    lemma_replace_one(before, self.cursor_item, s as int, target, cur);
                    assert(ps@[k as int] as int == s as int);
                }
                self.slots.set(s, target);
                self.cursor_item = cur;
            }
            stop = self.cursor_item.is_none();
            k = k + 1;
        }
        proof {
            if stop {
                lemma_spread_stops(s0, c0, ps@, per, k as nat, ps@.len());
            }
        }
    }

    /// Ends the drag under way and carries it out; see `PaintState::finish`.
    /// Fails only when no drag was under way.
    pub fn end_paint(&mut self) -> (r: Result<(), WindowError>)
        requires
            old(self).wf(),
            old(self).paint_in_range(),
        ensures
            final(self).wf(),
            final(self).kind() == old(self).kind(),
            final(self).layout() == old(self).layout(),
            final(self).paint() is None,
            old(self).paint() is None ==> (r matches Err(WindowError::NoPaint)) && final(self).slots()
                == old(self).slots() && final(self).cursor() == old(self).cursor(),
            old(self).paint() is Some ==> r is Ok && (final(self).slots(), final(self).cursor())
                == spec_finish(old(self).slots(), old(self).cursor(), old(self).paint()->0),
            same_items(old(self).slots(), old(self).cursor(), final(self).slots(), final(self).cursor()),
            forall|j: int|
                0 <= j < old(self).slots().len() && #[trigger] final(self).slots()[j] != old(self).slots()[j]
                    ==> in_paint(old(self).paint()->0.slots(), j),
    {
        let state = match self.paint_state.take() {
            Some(st) => st,
            None => {
                return Err(WindowError::NoPaint);
            },
        };
        state.finish(self)
    }
}

impl PaintState {
    /// Every dragged slot is below `len`.
    pub open spec fn in_range(&self, len: nat) -> bool {
        forall|k: int| 0 <= k < self.slots().len() ==> #[trigger] self.slots()[k] < len
    }

    /// Carries out the drag on `window`; see `spec_finish`. No item is
    /// gained or lost, and only dragged slots change.
    pub fn finish(self, window: &mut Window) -> (r: Result<(), WindowError>)
        requires
            old(window).wf(),
            self.in_range(old(window).slots().len()),
        ensures
            r is Ok,
            final(window).wf(),
            final(window).kind() == old(window).kind(),
            final(window).layout() == old(window).layout(),
            final(window).paint() == old(window).paint(),
            (final(window).slots(), final(window).cursor()) == spec_finish(
                old(window).slots(),
                old(window).cursor(),
                self,
            ),
            same_items(
                old(window).slots(),
                old(window).cursor(),
                final(window).slots(),
                final(window).cursor(),
            ),
            forall|j: int|
                0 <= j < old(window).slots().len() && #[trigger] final(window).slots()[j]
                    != old(window).slots()[j] ==> in_paint(self.slots(), j),
    {
        assert forall|m: int| 0 <= m < self.slots@.len() implies #[trigger] self.slots@[m]
            < window.slots().len() by {
            assert(self.slots()[m] < window.slots().len());
        }
        let per: i8 = match self.mouse {
            Mouse::Left => {
                let c: i8 = match window.cursor_item {
                    None => {
                        return Ok(());
                    },
                    Some(st) => st.count(),
                };
                let mut n: usize = 0;
                let mut k: usize = 0;
                while k < self.slots.len()
                    invariant
                        k <= self.slots@.len(),
                        n == count_mergable(window.slots(), window.cursor(), self.slots@, k as nat),
                        n <= k,
                        window.wf(),
                        forall|m: int| 0 <= m < self.slots@.len() ==> #[trigger] self.slots@[m] < window.slots().len(),
                    decreases self.slots@.len() - k,
                {
                    let s = self.slots[k];
                    assert(self.slots@[k as int] < window.slots().len());
                    if is_mergable(&window.slots[s], &window.cursor_item) {
                        n = n + 1;
                    }
                    k = k + 1;
                }
                let n8: i8 = #[verifier::truncate] (n as i8);
                if n8 == 0 {
                    return Ok(());
                }
                if n8 > 0 {
                    let q: u8 = (c as u8) / (n8 as u8);
                    assert(q == c / n8);
                    if q < 1 {
                        1
                    } else {
                        q as i8
                    }
                } else {
                    1
                }
            },
            Mouse::Right => 1,
        };
        window.spread_cursor(&self.slots, per);
        Ok(())
    }
}


/// How many items a slot that takes `per` at a time still has room for
/// from `cursor`: an empty slot the cursor's stack size, a stack what it
/// lacks of its own.
pub open spec fn room_for(t: Option<ItemStack>, cursor: Option<ItemStack>) -> int {
    match t {
        None => cursor->0.spec_stack_size() as int,
        Some(x) => x.spec_stack_size() - x.amount(),
    }
}

/// What the cursor holds after the first `m` dragged slots of a spread of
/// `per` took their share from `a` items: each slot that merges with the
/// cursor takes `per` items, or all that is left when fewer.
pub open spec fn drag_rest(
    slots: Seq<Option<ItemStack>>,
    cursor: Option<ItemStack>,
    ps: Seq<usize>,
    per: i8,
    a: int,
    m: nat,
) -> int
    decreases m,
{
    if m == 0 {
        a
    } else {
        let r = drag_rest(slots, cursor, ps, per, a, (m - 1) as nat);
        if spec_mergable(slots[ps[m - 1] as int], cursor) {
            r - min_int(per as int, r)
        } else {
            r
        }
    }
}

/// What the `i`-th dragged slot gains in such a spread.
pub open spec fn drag_gain(
    slots: Seq<Option<ItemStack>>,
    cursor: Option<ItemStack>,
    ps: Seq<usize>,
    per: i8,
    a: int,
    i: int,
) -> int {
    if spec_mergable(slots[ps[i] as int], cursor) {
        min_int(per as int, drag_rest(slots, cursor, ps, per, a, i as nat))
    } else {
        0
    }
}

/// The conditions under which a drag shares out its items in full: the
/// dragged slots are distinct slots of the window, and each that merges
/// with the cursor has room for `per` items.
pub open spec fn drag_fits(slots: Seq<Option<ItemStack>>, cursor: Option<ItemStack>, ps: Seq<usize>, per: i8) -> bool {
    &&& cursor is Some
    &&& slot_wf(cursor)
    &&& per >= 1
    &&& forall|i: int| 0 <= i < ps.len() ==> (#[trigger] ps[i] as int) < slots.len()
    &&& forall|i: int| 0 <= i < slots.len() ==> #[trigger] slot_wf(slots[i])
    &&& forall|i: int, j: int| 0 <= i < j < ps.len() ==> ps[i] != ps[j]
    &&& forall|i: int|
        0 <= i < ps.len() && spec_mergable(slots[#[trigger] ps[i] as int], cursor) ==> room_for(
            slots[ps[i] as int],
            cursor,
        ) >= per
}

proof fn lemma_drag_rest_bounds(
    slots: Seq<Option<ItemStack>>,
    cursor: Option<ItemStack>,
    ps: Seq<usize>,
    per: i8,
    a: int,
    m: nat,
)
    requires
        a >= 0,
        per >= 1,
    ensures
        0 <= drag_rest(slots, cursor, ps, per, a, m) <= a,
    decreases m,
{
    if m > 0 {
        lemma_drag_rest_bounds(slots, cursor, ps, per, a, (m - 1) as nat);
    }
}

/// The shape of a spread: after the first `m` dragged slots, each of them
/// gained `drag_gain` items of the cursor's kind and damage, no other slot
/// changed, and the cursor holds `drag_rest` items of its stack.
pub proof fn lemma_spread_shape(
    slots: Seq<Option<ItemStack>>,
    cursor: Option<ItemStack>,
    ps: Seq<usize>,
    per: i8,
    m: nat,
)
    requires
        drag_fits(slots, cursor, ps, per),
        m <= ps.len(),
    ensures
        ({
            let (s, c) = spec_spread(slots, cursor, ps, per, m);
            let a = cursor->0.amount() as int;
            let id = cursor->0.spec_id();
            let meta = cursor->0.meta();
            let r = drag_rest(slots, cursor, ps, per, a, m);
            &&& s.len() == slots.len()
            &&& r == 0 ==> c is None
            &&& r > 0 ==> c == Some(cursor->0.with_amount(r as i8))
            &&& forall|i: int|
                0 <= i < m ==> #[trigger] slot_amount(s[ps[i] as int], id, meta) == slot_amount(
                    slots[ps[i] as int],
                    id,
                    meta,
                ) + drag_gain(slots, cursor, ps, per, a, i)
            &&& forall|i: int|
                0 <= i < slots.len() && !(exists|k: int| 0 <= k < m && ps[k] as int == i) ==> #[trigger] s[i]
                    == slots[i]
        }),
    decreases m,
{
    let cur = cursor->0;
    let a = cur.amount() as int;
    cur.lemma_with_amount(cur.amount());
    ItemStack::lemma_ext_equal(cur.with_amount(cur.amount()), cur);
    if m > 0 {
        let mm = (m - 1) as nat;
        lemma_spread_shape(slots, cursor, ps, per, mm);
        lemma_drag_rest_bounds(slots, cursor, ps, per, a, mm);
        let (s, c) = spec_spread(slots, cursor, ps, per, mm);
        let r = drag_rest(slots, cursor, ps, per, a, mm);
        let q = ps[mm as int] as int;
        let id = cur.spec_id();
        let meta = cur.meta();
        assert(ps[mm as int] as int == q);
        assert(q < slots.len());
        assert(s[q] == slots[q]) by {
            if exists|k: int| 0 <= k < mm && ps[k] as int == q {
                let k = choose|k: int| 0 <= k < mm && ps[k] as int == q;
                assert(ps[k] != ps[mm as int]);
            }
        }
        if r > 0 {
            cur.lemma_with_amount(r as i8);
            let cm = cur.with_amount(r as i8);
            assert(spec_mergable(s[q], c) == spec_mergable(slots[q], cursor));
            if spec_mergable(slots[q], cursor) {
                let g = min_int(per as int, r);
                assert(room_for(slots[q], cursor) >= per);
                assert(moved(c, s[q], per) == g);
                cm.lemma_with_amount((r - g) as i8);
                cm.lemma_with_amount(g as i8);
                cur.lemma_with_amount((r - g) as i8);
                cur.lemma_with_amount(g as i8);
                ItemStack::lemma_ext_equal(cm.with_amount((r - g) as i8), cur.with_amount((r - g) as i8));
                ItemStack::lemma_ext_equal(cm.with_amount(g as i8), cur.with_amount(g as i8));
                match s[q] {
                    None => {},
                    Some(t) => {
                        t.lemma_with_amount((t.amount() + g) as i8);
                    },
                }
            }
        }
        let (s2, c2) = spec_spread(slots, cursor, ps, per, m);
        assert forall|i: int|
            0 <= i < slots.len() && !(exists|k: int| 0 <= k < m && ps[k] as int == i) implies #[trigger] s2[i]
            == slots[i] by {
            assert(!(exists|k: int| 0 <= k < mm && ps[k] as int == i)) by {
                if exists|k: int| 0 <= k < mm && ps[k] as int == i {
                    let k = choose|k: int| 0 <= k < mm && ps[k] as int == i;
                    assert(0 <= k < m && ps[k] as int == i);
                }
            }
            assert(i != q) by {
                assert(0 <= mm < m && ps[mm as int] as int == q);
            }
        }
        assert forall|i: int| 0 <= i < m implies #[trigger] slot_amount(s2[ps[i] as int], id, meta)
            == slot_amount(slots[ps[i] as int], id, meta) + drag_gain(slots, cursor, ps, per, a, i) by {
            if i < mm {
                assert(ps[i] != ps[mm as int]);
                assert(slot_amount(s[ps[i] as int], id, meta) == slot_amount(slots[ps[i] as int], id, meta)
                    + drag_gain(slots, cursor, ps, per, a, i));
            }
        }
    }
}


proof fn lemma_all_mergable_count(slots: Seq<Option<ItemStack>>, cursor: Option<ItemStack>, ps: Seq<usize>, m: nat)
    requires
        m <= ps.len(),
        forall|i: int| 0 <= i < ps.len() ==> spec_mergable(slots[#[trigger] ps[i] as int], cursor),
    ensures
        count_mergable(slots, cursor, ps, m) == m,
    decreases m,
{
    if m > 0 {
        lemma_all_mergable_count(slots, cursor, ps, (m - 1) as nat);
        assert(spec_mergable(slots[ps[m - 1] as int], cursor));
    }
}

proof fn lemma_even_rest(
    slots: Seq<Option<ItemStack>>,
    cursor: Option<ItemStack>,
    ps: Seq<usize>,
    c: int,
    k: int,
    i: nat,
)
    requires
        1 <= k <= c <= 127,
        i <= k,
        k <= ps.len(),
        forall|j: int| 0 <= j < ps.len() ==> spec_mergable(slots[#[trigger] ps[j] as int], cursor),
    ensures
        drag_rest(slots, cursor, ps, (c / k) as i8, c, i) == c - i * (c / k),
    decreases i,
{
    let per = c / k;
    assert(1 <= per <= c) by (nonlinear_arith)
        requires
            1 <= k <= c,
            per == c / k,
    ;
    assert(per as i8 as int == per);
    if i == 0 {
        assert(c - i * per == c) by (nonlinear_arith)
            requires
                i == 0,
        ;
    } else {
        lemma_even_rest(slots, cursor, ps, c, k, (i - 1) as nat);
        assert(spec_mergable(slots[ps[i - 1] as int], cursor));
        assert(c - (i - 1) * per >= per) by (nonlinear_arith)
            requires
                1 <= k <= c,
                per == c / k,
                1 <= i <= k,
        {
            assert(k * per <= c);
            assert((i - 1) * per <= (k - 1) * per);
        }
        assert(c - (i - 1) * per - per == c - i * per) by (nonlinear_arith);
        let r = drag_rest(slots, cursor, ps, per as i8, c, (i - 1) as nat);
        assert(min_int(per as i8 as int, r) == per);
    }
}

proof fn lemma_short_rest(slots: Seq<Option<ItemStack>>, cursor: Option<ItemStack>, ps: Seq<usize>, c: int, i: nat)
    requires
        0 <= c,
        i <= ps.len(),
        forall|j: int| 0 <= j < ps.len() ==> spec_mergable(slots[#[trigger] ps[j] as int], cursor),
    ensures
        drag_rest(slots, cursor, ps, 1, c, i) == if c >= i {
            c - i
        } else {
            0
        },
    decreases i,
{
    if i > 0 {
        lemma_short_rest(slots, cursor, ps, c, (i - 1) as nat);
        assert(spec_mergable(slots[ps[i - 1] as int], cursor));
    }
}

proof fn lemma_one_each_rest(slots: Seq<Option<ItemStack>>, cursor: Option<ItemStack>, ps: Seq<usize>, c: int, i: nat)
    requires
        0 <= c,
        i <= ps.len(),
    ensures
        drag_rest(slots, cursor, ps, 1, c, i) == if c >= count_mergable(slots, cursor, ps, i) {
            c - count_mergable(slots, cursor, ps, i)
        } else {
            0
        },
    decreases i,
{
    if i > 0 {
        lemma_one_each_rest(slots, cursor, ps, c, (i - 1) as nat);
    }
}

/// A left drag over `k` distinct slots that all merge with the cursor's `c`
/// items, and have room enough, gives each slot `c / k` items and leaves
/// `c % k` at the cursor; with fewer items than slots, the first `c` slots
/// in the order they were dragged over get one item each. Other slots stay.
pub proof fn law_left_drag_shares_evenly(slots: Seq<Option<ItemStack>>, cursor: Option<ItemStack>, p: PaintState)
    requires
        p.mouse() == Mouse::Left,
        1 <= p.slots().len() <= 127,
        forall|i: int|
            0 <= i < p.slots().len() ==> spec_mergable(slots[#[trigger] p.slots()[i] as int], cursor),
        drag_fits(
            slots,
            cursor,
            p.slots(),
            left_drag_share(cursor->0.amount(), p.slots().len() as i8),
        ),
    ensures
        ({
            let (s2, c2) = spec_finish(slots, cursor, p);
            let ps = p.slots();
            let k = ps.len() as int;
            let c = cursor->0.amount() as int;
            let id = cursor->0.spec_id();
            let meta = cursor->0.meta();
            &&& forall|i: int|
                0 <= i < k ==> #[trigger] slot_amount(s2[ps[i] as int], id, meta) == slot_amount(
                    slots[ps[i] as int],
                    id,
                    meta,
                ) + if c >= k {
                    c / k
                } else if i < c {
                    1int
                } else {
                    0int
                }
            &&& c >= k && c % k != 0 ==> c2 == Some(cursor->0.with_amount((c % k) as i8))
            &&& (c < k || c % k == 0) ==> c2 is None
            &&& forall|j: int|
                0 <= j < slots.len() && !(exists|i: int| 0 <= i < k && ps[i] as int == j) ==> #[trigger] s2[j]
                    == slots[j]
        }),
{
    let ps = p.slots();
    let k = ps.len() as int;
    let c = cursor->0.amount() as int;
    lemma_all_mergable_count(slots, cursor, ps, ps.len());
    assert((k as nat) as i8 == k as i8);
    let per = left_drag_share(c as i8, k as i8);
    lemma_spread_shape(slots, cursor, ps, per, ps.len());
    if c >= k {
        assert(per == c / k) by (nonlinear_arith)
            requires
                1 <= k <= c <= 127,
                per == (if k > 0 {
                    if c / k < 1 {
                        1
                    } else {
                        c / k
                    }
                } else {
                    1
                }),
        {
            assert(c / k >= 1);
        }
        lemma_even_rest(slots, cursor, ps, c, k, ps.len());
        assert(c - k * (c / k) == c % k) by (nonlinear_arith)
            requires
                k >= 1,
        ;
        assert forall|i: int| 0 <= i < k implies drag_gain(slots, cursor, ps, per, c, i) == c / k by {
            lemma_even_rest(slots, cursor, ps, c, k, i as nat);
            assert(c - i * (c / k) >= c / k) by (nonlinear_arith)
                requires
                    1 <= k <= c,
                    0 <= i < k,
            {
                assert(k * (c / k) <= c);
                assert(i * (c / k) <= (k - 1) * (c / k));
            }
        }
    } else {
        assert(c / k == 0) by (nonlinear_arith)
            requires
                0 <= c < k,
        ;
        assert(per == 1);
        lemma_short_rest(slots, cursor, ps, c, ps.len());
        assert forall|i: int| 0 <= i < k implies drag_gain(slots, cursor, ps, per, c, i) == if i < c {
            1int
        } else {
            0int
        } by {
            lemma_short_rest(slots, cursor, ps, c, i as nat);
        }
    }
}

/// A right drag drops one item from the cursor into each dragged slot that
/// merges with it, in the order they were dragged over, until the cursor is
/// empty: the slot gains one exactly when fewer mergeable slots than the
/// cursor's items came before it. Other slots stay.
pub proof fn law_right_drag_drops_one_each(slots: Seq<Option<ItemStack>>, cursor: Option<ItemStack>, p: PaintState)
    requires
        p.mouse() == Mouse::Right,
        drag_fits(slots, cursor, p.slots(), 1),
    ensures
        ({
            let (s2, c2) = spec_finish(slots, cursor, p);
            let ps = p.slots();
            let k = ps.len() as int;
            let c = cursor->0.amount() as int;
            let id = cursor->0.spec_id();
            let meta = cursor->0.meta();
            let n = count_mergable(slots, cursor, ps, ps.len()) as int;
            &&& forall|i: int|
                0 <= i < k ==> #[trigger] slot_amount(s2[ps[i] as int], id, meta) == slot_amount(
                    slots[ps[i] as int],
                    id,
                    meta,
                ) + if spec_mergable(slots[ps[i] as int], cursor) && count_mergable(
                    slots,
                    cursor,
                    ps,
                    i as nat,
                ) < c {
                    1int
                } else {
                    0int
                }
            &&& c > n ==> c2 == Some(cursor->0.with_amount((c - n) as i8))
            &&& c <= n ==> c2 is None
            &&& forall|j: int|
                0 <= j < slots.len() && !(exists|i: int| 0 <= i < k && ps[i] as int == j) ==> #[trigger] s2[j]
                    == slots[j]
        }),
{
    let ps = p.slots();
    let c = cursor->0.amount() as int;
    lemma_spread_shape(slots, cursor, ps, 1, ps.len());
    lemma_one_each_rest(slots, cursor, ps, c, ps.len());
    assert forall|i: int| 0 <= i < ps.len() implies drag_gain(slots, cursor, ps, 1, c, i) == if spec_mergable(
        slots[ps[i] as int],
        cursor,
    ) && count_mergable(slots, cursor, ps, i as nat) < c {
        1int
    } else {
        0int
    } by {
        lemma_one_each_rest(slots, cursor, ps, c, i as nat);
    }
}


/// The room that the first `j` slots offer a fill of `area` with `src`'s
/// kind: what each mergeable stack lacks of its stack size, or, when
/// filling empty slots, `src`'s stack size for each empty one.
pub open spec fn fill_room(
    slots: Seq<Option<ItemStack>>,
    src: Option<ItemStack>,
    layout: Seq<SlotInfo>,
    inv: u8,
    area: Area,
    skip: int,
    into_empty: bool,
    j: nat,
) -> int
    decreases j,
{
    if j == 0 {
        0
    } else {
        let k = j - 1;
        fill_room(slots, src, layout, inv, area, skip, into_empty, (j - 1) as nat) + if fill_target(
            layout,
            k,
            inv,
            area,
            skip,
        ) && fill_takes(slots[k], src, into_empty) {
            room_for(slots[k], src)
        } else {
            0
        }
    }
}

/// The items of a stack, none for an empty slot.
pub open spec fn count_of(s: Option<ItemStack>) -> int {
    match s {
        Some(x) => x.amount() as int,
        None => 0,
    }
}

pub open spec fn max0(x: int) -> int {
    if x < 0 {
        0
    } else {
        x
    }
}

/// A fill leaves the moving stack holding what exceeds the room of the
/// slots it passed, of the same kind, and empties no slot and fills none
/// when it only merges.
pub proof fn lemma_fill_rest(
    slots: Seq<Option<ItemStack>>,
    src: Option<ItemStack>,
    layout: Seq<SlotInfo>,
    inv: u8,
    area: Area,
    skip: int,
    into_empty: bool,
    j: nat,
)
    requires
        src is Some,
        slot_wf(src),
        j <= slots.len(),
        layout.len() == slots.len(),
        forall|i: int| 0 <= i < slots.len() ==> #[trigger] slot_wf(slots[i]),
    ensures
        ({
            let (s, c) = spec_fill(slots, src, layout, inv, area, skip, into_empty, j);
            let r = max0(count_of(src) - fill_room(slots, src, layout, inv, area, skip, into_empty, j));
            &&& s.len() == slots.len()
            &&& count_of(c) == r
            &&& r > 0 ==> c == Some(src->0.with_amount(r as i8))
            &&& r == 0 ==> c is None
            &&& forall|k: int| j <= k < slots.len() ==> #[trigger] s[k] == slots[k]
            &&& forall|k: int| 0 <= k < slots.len() ==> (#[trigger] s[k] is None <==> slots[k] is None) || (
            into_empty && fill_target(layout, k, inv, area, skip))
            &&& forall|k: int| 0 <= k < slots.len() ==> #[trigger] slot_wf(s[k])
            &&& forall|k: int| 0 <= k < slots.len() && !fill_target(layout, k, inv, area, skip) ==> #[trigger] s[k] == slots[k]
        }),
    decreases j,
{
    let f = src->0;
    f.lemma_with_amount(f.amount());
    ItemStack::lemma_ext_equal(f.with_amount(f.amount()), f);
    if j > 0 {
        let jj = (j - 1) as nat;
        lemma_fill_rest(slots, src, layout, inv, area, skip, into_empty, jj);
        let (s, c) = spec_fill(slots, src, layout, inv, area, skip, into_empty, jj);
        let k = jj as int;
        let room = fill_room(slots, src, layout, inv, area, skip, into_empty, jj);
        let r = max0(count_of(src) - room);
        assert(room >= 0) by {
            lemma_fill_room_nonneg(slots, src, layout, inv, area, skip, into_empty, jj);
        }
        assert(s[k] == slots[k]);
        assert(slot_wf(slots[k]));
        if r > 0 {
            f.lemma_with_amount(r as i8);
            let cm = f.with_amount(r as i8);
            if fill_target(layout, k, inv, area, skip) && fill_takes(s[k], c, into_empty) {
                assert(fill_takes(slots[k], src, into_empty));
                let g = if r < room_for(slots[k], src) { r } else { room_for(slots[k], src) };
                assert(moved(c, s[k], 127) == g);
                cm.lemma_with_amount((r - g) as i8);
                cm.lemma_with_amount(g as i8);
                f.lemma_with_amount((r - g) as i8);
                f.lemma_with_amount(g as i8);
                ItemStack::lemma_ext_equal(cm.with_amount((r - g) as i8), f.with_amount((r - g) as i8));
                lemma_transfer(c, s[k], 127);
                match s[k] {
                    None => {},
                    Some(t) => {
                        t.lemma_with_amount((t.amount() + g) as i8);
                    },
                }
            } else {
                assert(!(fill_target(layout, k, inv, area, skip) && fill_takes(slots[k], src, into_empty)));
            }
        } else {
            if fill_target(layout, k, inv, area, skip) && fill_takes(s[k], c, into_empty) {
                assert(moved(c, s[k], 127) == 0);
            }
        }
    }
}

proof fn lemma_fill_room_nonneg(
    slots: Seq<Option<ItemStack>>,
    src: Option<ItemStack>,
    layout: Seq<SlotInfo>,
    inv: u8,
    area: Area,
    skip: int,
    into_empty: bool,
    j: nat,
)
    requires
        src is Some,
        slot_wf(src),
        j <= slots.len(),
        forall|i: int| 0 <= i < slots.len() ==> #[trigger] slot_wf(slots[i]),
    ensures
        fill_room(slots, src, layout, inv, area, skip, into_empty, j) >= 0,
    decreases j,
{
    if j > 0 {
        lemma_fill_room_nonneg(slots, src, layout, inv, area, skip, into_empty, (j - 1) as nat);
        assert(slot_wf(slots[j - 1]));
    }
}


proof fn lemma_fill_room_same(
    s: Seq<Option<ItemStack>>,
    t: Seq<Option<ItemStack>>,
    src1: Option<ItemStack>,
    src2: Option<ItemStack>,
    layout: Seq<SlotInfo>,
    inv: u8,
    area: Area,
    skip: int,
    into_empty: bool,
    j: nat,
)
    requires
        src1 is Some,
        src2 is Some,
        src1->0.kind() == src2->0.kind(),
        src1->0.meta() == src2->0.meta(),
        j <= s.len(),
        j <= t.len(),
        forall|k: int|
            0 <= k < j && #[trigger] fill_target(layout, k, inv, area, skip) ==> if into_empty {
                (s[k] is None <==> t[k] is None)
            } else {
                s[k] == t[k]
            },
    ensures
        fill_room(s, src1, layout, inv, area, skip, into_empty, j) == fill_room(
            t,
            src2,
            layout,
            inv,
            area,
            skip,
            into_empty,
            j,
        ),
    decreases j,
{
    if j > 0 {
        lemma_fill_room_same(s, t, src1, src2, layout, inv, area, skip, into_empty, (j - 1) as nat);
        let k = j - 1;
        if fill_target(layout, k, inv, area, skip) {
            assert(if into_empty {
                (s[k] is None <==> t[k] is None)
            } else {
                s[k] == t[k]
            });
        }
    }
}

/// Inserting an item loses nothing when the hotbar and storage have room
/// for it: what the mergeable stacks lack of their stack size, plus a full
/// stack for each empty slot. When the mergeable stacks alone have room,
/// no empty slot is filled.
pub proof fn law_insert_fits(slots: Seq<Option<ItemStack>>, layout: Seq<SlotInfo>, item: Option<ItemStack>)
    requires
        item is Some,
        slot_wf(item),
        layout.len() == slots.len(),
        slots.len() > 10,
        forall|i: int| 0 <= i < slots.len() ==> #[trigger] slot_wf(slots[i]),
        fill_room(slots, item, layout, layout[10].inventory, Area::Hotbar, slots.len() as int, false, slots.len())
            + fill_room(slots, item, layout, layout[10].inventory, Area::Storage, slots.len() as int, false, slots.len())
            + fill_room(slots, item, layout, layout[10].inventory, Area::Hotbar, slots.len() as int, true, slots.len())
            + fill_room(slots, item, layout, layout[10].inventory, Area::Storage, slots.len() as int, true, slots.len())
            >= count_of(item),
    ensures
        spec_insert(slots, layout, item).1 is None,
        fill_room(slots, item, layout, layout[10].inventory, Area::Hotbar, slots.len() as int, false, slots.len())
            + fill_room(slots, item, layout, layout[10].inventory, Area::Storage, slots.len() as int, false, slots.len())
            >= count_of(item) ==> forall|k: int|
            0 <= k < slots.len() && slots[k] is None ==> #[trigger] spec_insert(slots, layout, item).0[k] is None,
{
    let inv = layout[10].inventory;
    let n = slots.len();
    let skip = n as int;
    let a = count_of(item);
    let rh = fill_room(slots, item, layout, inv, Area::Hotbar, skip, false, n);
    let rs = fill_room(slots, item, layout, inv, Area::Storage, skip, false, n);
    let eh = fill_room(slots, item, layout, inv, Area::Hotbar, skip, true, n);
    let es = fill_room(slots, item, layout, inv, Area::Storage, skip, true, n);
    lemma_fill_room_nonneg(slots, item, layout, inv, Area::Hotbar, skip, false, n);
    lemma_fill_room_nonneg(slots, item, layout, inv, Area::Storage, skip, false, n);
    lemma_fill_room_nonneg(slots, item, layout, inv, Area::Hotbar, skip, true, n);
    lemma_fill_room_nonneg(slots, item, layout, inv, Area::Storage, skip, true, n);
    let f = item->0;
    // Pass 1: merge into the hotbar.
    lemma_fill_rest(slots, item, layout, inv, Area::Hotbar, skip, false, n);
    let (s1, c1) = spec_fill(slots, item, layout, inv, Area::Hotbar, skip, false, n);
    if c1 is None {
        return;
    }
    let r1 = max0(a - rh);
    f.lemma_with_amount(r1 as i8);
    // Pass 2: merge into storage.
    lemma_fill_room_same(s1, slots, c1, item, layout, inv, Area::Storage, skip, false, n);
    lemma_fill_rest(s1, c1, layout, inv, Area::Storage, skip, false, n);
    let (s2, c2) = spec_fill(s1, c1, layout, inv, Area::Storage, skip, false, n);
    assert(count_of(c2) == max0(r1 - rs));
    if c2 is None {
        return;
    }
    let r2 = max0(r1 - rs);
    let c1s = c1->0;
    c1s.lemma_with_amount(r2 as i8);
    // Pass 3: fill empty hotbar slots.
    lemma_fill_room_same(s2, slots, c2, item, layout, inv, Area::Hotbar, skip, true, n);
    lemma_fill_rest(s2, c2, layout, inv, Area::Hotbar, skip, true, n);
    let (s3, c3) = spec_fill(s2, c2, layout, inv, Area::Hotbar, skip, true, n);
    assert(count_of(c3) == max0(r2 - eh));
    if c3 is None {
        return;
    }
    let r3 = max0(r2 - eh);
    let c2s = c2->0;
    c2s.lemma_with_amount(r3 as i8);
    // Pass 4: fill empty storage slots.
    lemma_fill_room_same(s3, slots, c3, item, layout, inv, Area::Storage, skip, true, n);
    lemma_fill_rest(s3, c3, layout, inv, Area::Storage, skip, true, n);
    let (s4, c4) = spec_fill(s3, c3, layout, inv, Area::Storage, skip, true, n);
    assert(count_of(c4) == max0(r3 - es));
}

impl Window {
    /// A click on the slot at `slot` as a window click packet reports it: a
    /// shift-click, else a right or a left click.
    pub fn click(&mut self, slot: usize, right_click: bool, shift: bool) -> (r: Result<(), WindowError>)
        requires
            old(self).wf(),
        ensures
            final(self).wf(),
            final(self).kind() == old(self).kind(),
            final(self).layout() == old(self).layout(),
            final(self).paint() == old(self).paint(),
            slot >= old(self).slots().len() ==> (r matches Err(WindowError::OutOfBounds(i)) && i
                == slot) && final(self).slots() == old(self).slots() && final(self).cursor()
                == old(self).cursor(),
            slot < old(self).slots().len() ==> r is Ok,
            slot < old(self).slots().len() && shift ==> final(self).slots() == spec_shift_click(
                old(self).slots(),
                old(self).layout(),
                old(self).kind(),
                slot as int,
            ) && final(self).cursor() == old(self).cursor(),
            slot < old(self).slots().len() && !shift ==> ({
                let (s2, c2) = if right_click {
                    spec_right_click(
                        old(self).slots()[slot as int],
                        old(self).cursor(),
                        old(self).layout()[slot as int].area,
                    )
                } else {
                    spec_left_click(
                        old(self).slots()[slot as int],
                        old(self).cursor(),
                        old(self).layout()[slot as int].area,
                    )
                };
                final(self).slots() == old(self).slots().update(slot as int, s2)
                    && final(self).cursor() == c2
            }),
    {
        if shift {
            self.shift_click(slot)
        } else if right_click {
            self.right_click(slot)
        } else {
            self.left_click(slot)
        }
    }
}

/// Whether a drag that covers `len` slots refuses one more.
pub open spec fn paint_refuses(len: nat) -> bool {
    len + 1 > MAX_PAINT_SLOTS
}

/// Once a drag begins, it takes the first `MAX_PAINT_SLOTS` slots added,
/// each adding to the drag, and refuses the one after.
pub proof fn law_drag_takes_max_paint_slots(p: PaintState, adds: Seq<usize>)
    requires
        p.slots().len() == 0,
        adds.len() <= MAX_PAINT_SLOTS,
    ensures
        forall|i: int|
            0 <= i < adds.len() ==> !paint_refuses(#[trigger] (p.slots() + adds.take(i)).len()),
        paint_refuses((p.slots() + adds).len()) <==> adds.len() == MAX_PAINT_SLOTS,
{
    assert forall|i: int| 0 <= i < adds.len() implies !paint_refuses(
        #[trigger] (p.slots() + adds.take(i)).len(),
    ) by {
        assert((p.slots() + adds.take(i)).len() == i);
    }
}


/// The fewer of two numbers.
pub open spec fn least(a: int, b: int) -> int {
    if a <= b {
        a
    } else {
        b
    }
}

/// A left click on an output slot (one the player may not put items into)
/// whose stack merges with the cursor's takes as many of the slot's items
/// onto the cursor as the cursor's stack has room for: the cursor gains
/// them, the slot loses them, and when they all fit the slot ends empty.
pub proof fn law_left_click_on_output_takes_onto_cursor(slot: ItemStack, cursor: ItemStack, area: Area)
    requires
        !spec_can_insert(area),
        slot_wf(Some(slot)),
        slot_wf(Some(cursor)),
        slot.spec_id() == cursor.spec_id(),
        slot.meta() == cursor.meta(),
        slot.spec_stack_size() > 1,
        cursor.spec_stack_size() > 1,
    ensures
        ({
            let (s2, c2) = spec_left_click(Some(slot), Some(cursor), area);
            let n = least(slot.amount() as int, cursor.spec_stack_size() - cursor.amount());
            &&& c2 matches Some(c) && c.spec_id() == cursor.spec_id() && c.meta() == cursor.meta()
                && c.amount() == cursor.amount() + n
            &&& count_of(s2) == slot.amount() - n
            &&& n == slot.amount() ==> s2 is None
            &&& s2 matches Some(t) ==> t.spec_id() == slot.spec_id() && t.meta() == slot.meta()
        }),
{
    let n = least(slot.amount() as int, cursor.spec_stack_size() - cursor.amount());
    assert(moved(Some(slot), Some(cursor), 127) == n);
    slot.lemma_with_amount((slot.amount() - n) as i8);
    cursor.lemma_with_amount((cursor.amount() + n) as i8);
}

/// A right click on an output slot whose stack merges with the cursor's
/// takes up to 64 of the slot's items onto the cursor, as many as the
/// cursor's stack has room for, not a single one.
pub proof fn law_right_click_on_output_takes_up_to_64(slot: ItemStack, cursor: ItemStack, area: Area)
    requires
        !spec_can_insert(area),
        slot_wf(Some(slot)),
        slot_wf(Some(cursor)),
        slot.spec_id() == cursor.spec_id(),
        slot.meta() == cursor.meta(),
        slot.spec_stack_size() > 1,
        cursor.spec_stack_size() > 1,
    ensures
        ({
            let (s2, c2) = spec_right_click(Some(slot), Some(cursor), area);
            let n = least(
                least(64, slot.amount() as int),
                cursor.spec_stack_size() - cursor.amount(),
            );
            &&& c2 matches Some(c) && c.spec_id() == cursor.spec_id() && c.meta() == cursor.meta()
                && c.amount() == cursor.amount() + n
            &&& count_of(s2) == slot.amount() - n
            &&& n == slot.amount() ==> s2 is None
        }),
{
    let n = least(least(64, slot.amount() as int), cursor.spec_stack_size() - cursor.amount());
    assert(moved(Some(slot), Some(cursor), 64) == n);
    slot.lemma_with_amount((slot.amount() - n) as i8);
    cursor.lemma_with_amount((cursor.amount() + n) as i8);
}

/// A left click where the player may put items: a cursor stack that merges
/// with the slot's moves onto it as far as the slot's stack has room, the
/// rest staying at the cursor; otherwise the cursor and the slot trade
/// what they hold (picking up, putting down or swapping).
pub proof fn law_left_click_puts_down_or_swaps(slot: Option<ItemStack>, cursor: Option<ItemStack>, area: Area)
    requires
        spec_can_insert(area),
        slot_wf(slot),
        slot_wf(cursor),
    ensures
        ({
            let (s2, c2) = spec_left_click(slot, cursor, area);
            if slot is Some && cursor is Some && spec_mergable(cursor, slot) {
                let t = slot->0;
                let c = cursor->0;
                let n = least(c.amount() as int, t.spec_stack_size() - t.amount());
                &&& s2 matches Some(x) && x.spec_id() == t.spec_id() && x.meta() == t.meta() && x.amount()
                    == t.amount() + n
                &&& count_of(c2) == c.amount() - n
                &&& n == c.amount() ==> c2 is None
            } else {
                s2 == cursor && c2 == slot
            }
        }),
{
    if slot is Some && cursor is Some && spec_mergable(cursor, slot) {
        let t = slot->0;
        let c = cursor->0;
        let n = least(c.amount() as int, t.spec_stack_size() - t.amount());
        assert(moved(cursor, slot, 127) == n);
        c.lemma_with_amount((c.amount() - n) as i8);
        t.lemma_with_amount((t.amount() + n) as i8);
    }
}

/// A left click on an output slot with nothing at the cursor picks up the
/// slot's whole stack.
pub proof fn law_left_click_on_output_picks_up(slot: Option<ItemStack>, area: Area)
    requires
        !spec_can_insert(area),
    ensures
        spec_left_click(slot, None, area) == (None::<ItemStack>, slot),
{
}

/// A right click on a stack with nothing at the cursor picks up the larger
/// half of it, leaving the smaller half, or, from the crafting output, all
/// of it.
pub proof fn law_right_click_picks_up_half(slot: ItemStack, area: Area)
    requires
        slot_wf(Some(slot)),
    ensures
        ({
            let (s2, c2) = spec_right_click(Some(slot), None, area);
            let a = slot.amount() as int;
            if area == Area::CraftingOutput {
                s2 is None && c2 == Some(slot)
            } else {
                &&& c2 matches Some(c) && c.spec_id() == slot.spec_id() && c.meta() == slot.meta() && c.amount()
                    == (a + 1) / 2
                &&& count_of(s2) == a / 2
                &&& a == 1 ==> s2 is None
                &&& s2 matches Some(x) ==> x.spec_id() == slot.spec_id() && x.meta() == slot.meta()
            }
        }),
{
    let a = slot.amount() as int;
    let h = ((a + 1) / 2) as i8;
    assert(moved(Some(slot), None, h) == (a + 1) / 2);
    slot.lemma_with_amount((a - (a + 1) / 2) as i8);
    slot.lemma_with_amount(h);
}

/// A right click with a stack at the cursor on an empty slot the player may
/// put items into drops one item there.
pub proof fn law_right_click_drops_one(cursor: ItemStack, area: Area)
    requires
        slot_wf(Some(cursor)),
        spec_can_insert(area),
    ensures
        ({
            let (s2, c2) = spec_right_click(None, Some(cursor), area);
            &&& s2 matches Some(x) && x.spec_id() == cursor.spec_id() && x.meta() == cursor.meta()
                && x.amount() == 1
            &&& count_of(c2) == cursor.amount() - 1
            &&& cursor.amount() == 1 ==> c2 is None
        }),
{
    assert(moved(Some(cursor), None, 1) == 1);
    cursor.lemma_with_amount((cursor.amount() - 1) as i8);
    cursor.lemma_with_amount(1);
}

/// A right click with a stack at the cursor onto a stack it merges with,
/// where the player may put items, adds one item to the slot when it has
/// room, else changes nothing.
pub proof fn law_right_click_adds_one(slot: ItemStack, cursor: ItemStack, area: Area)
    requires
        slot_wf(Some(slot)),
        slot_wf(Some(cursor)),
        spec_can_insert(area),
        spec_mergable(Some(slot), Some(cursor)),
    ensures
        ({
            let (s2, c2) = spec_right_click(Some(slot), Some(cursor), area);
            if slot.amount() < slot.spec_stack_size() {
                &&& s2 matches Some(x) && x.spec_id() == slot.spec_id() && x.meta() == slot.meta()
                    && x.amount() == slot.amount() + 1
                &&& count_of(c2) == cursor.amount() - 1
            } else {
                s2 == Some(slot) && c2 == Some(cursor)
            }
        }),
{
    if slot.amount() < slot.spec_stack_size() {
        assert(moved(Some(cursor), Some(slot), 1) == 1);
        cursor.lemma_with_amount((cursor.amount() - 1) as i8);
        slot.lemma_with_amount((slot.amount() + 1) as i8);
    } else {
        assert(moved(Some(cursor), Some(slot), 1) == 0);
    }
}

} // verus!
