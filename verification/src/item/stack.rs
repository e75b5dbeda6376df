//! Stacks of items: a kind, an amount and a damage value.
use vstd::prelude::*;

use super::registry::{BlockKind, ItemKind, ItemRegistry};

verus! {

/// The kind of thing an item stack is made of.
#[derive(Clone, Copy, Debug, PartialEq, Eq, Structural)]
pub enum ItemStackType {
    Item(ItemKind),
    Block(BlockKind),
}

impl ItemStackType {
    pub open spec fn spec_stack_size(&self) -> i8 {
        match self {
            ItemStackType::Item(i) => i.stack_size,
            ItemStackType::Block(b) => b.item_stack_size,
        }
    }

    pub open spec fn spec_id(&self) -> i16 {
        match self {
            ItemStackType::Item(i) => i.id,
            ItemStackType::Block(b) => b.id as i16,
        }
    }

    pub fn stack_size(&self) -> (r: i8)
        ensures
            r == self.spec_stack_size(),
    {
        match self {
            ItemStackType::Item(i) => i.stack_size,
            ItemStackType::Block(b) => b.item_stack_size,
        }
    }

    pub fn id(&self) -> (r: i16)
        ensures
            r == self.spec_id(),
    {
        match self {
            ItemStackType::Item(i) => i.id,
            ItemStackType::Block(b) => b.id as i16,
        }
    }
}

/// An error that an operation on item stacks may return.
#[derive(Clone, Copy, Debug)]
pub enum ItemStackError {
    ClientOverflow,
    EmptyStack,
    ExceedsStackSize,
    IncompatibleStacks,
    NotEnoughAmount,
}

/// Represents an item stack: an item type, an amount and a damage value.
#[derive(Clone, Copy, Debug, PartialEq, Eq, Structural)]
pub struct ItemStack {
    /// The item type of this `ItemStack`.
    item: ItemStackType,
    /// The number of items in the `ItemStack`.
    count: i8,
    meta: i16,
}

/// The smaller of two amounts.
pub open spec fn min_i8(a: i8, b: i8) -> i8 {
    if a <= b {
        a
    } else {
        b
    }
}

fn min_of(a: i8, b: i8) -> (r: i8)
    ensures
        r == min_i8(a, b),
{
    if a <= b {
        a
    } else {
        b
    }
}

/// `a - b`, held to the bounds of `i8`.
pub open spec fn saturating_sub_i8(a: i8, b: i8) -> i8 {
    if a - b > i8::MAX {
        i8::MAX
    } else if a - b < i8::MIN {
        i8::MIN
    } else {
        (a - b) as i8
    }
}

fn saturating_sub(a: i8, b: i8) -> (r: i8)
    ensures
        r == saturating_sub_i8(a, b),
{
    let d: i16 = a as i16 - b as i16;
    if d > 127 {
        i8::MAX
    } else if d < -128 {
        i8::MIN
    } else {
        d as i8
    }
}

/// `n / d` rounded toward zero, as Rust divides integers.
pub open spec fn div_toward_zero(n: int, d: int) -> int {
    if n >= 0 {
        n / d
    } else {
        -((-n) / d)
    }
}

impl ItemStack {
    /// The kind of the stack's items.
    pub closed spec fn kind(&self) -> ItemStackType {
        self.item
    }

    /// The number of items in the stack.
    pub closed spec fn amount(&self) -> i8 {
        self.count
    }

    /// The damage value (metadata) of the stack.
    pub closed spec fn meta(&self) -> i16 {
        self.meta
    }

    /// The stack with the same kind and damage and the given amount.
    pub closed spec fn with_amount(&self, amount: i8) -> ItemStack {
        ItemStack { count: amount, ..*self }
    }

    /// The stack made of these three parts.
    pub closed spec fn spec_new(kind: ItemStackType, amount: i8, meta: i16) -> ItemStack {
        ItemStack { item: kind, count: amount, meta }
    }

    pub proof fn lemma_with_amount(&self, amount: i8)
        ensures
            self.with_amount(amount).kind() == self.kind(),
            self.with_amount(amount).amount() == amount,
            self.with_amount(amount).meta() == self.meta(),
    {
    }

    pub proof fn lemma_spec_new(kind: ItemStackType, amount: i8, meta: i16)
        ensures
            Self::spec_new(kind, amount, meta).kind() == kind,
            Self::spec_new(kind, amount, meta).amount() == amount,
            Self::spec_new(kind, amount, meta).meta() == meta,
    {
    }

    /// Two stacks are the same value when their three parts are.
    pub proof fn lemma_ext_equal(a: ItemStack, b: ItemStack)
        requires
            a.kind() == b.kind(),
            a.amount() == b.amount(),
            a.meta() == b.meta(),
        ensures
            a == b,
    {
    }

    pub open spec fn spec_stack_size(&self) -> i8 {
        self.kind().spec_stack_size()
    }

    pub open spec fn spec_id(&self) -> i16 {
        self.kind().spec_id()
    }

    /// The kind that `ItemStack::new` gives to an id: the item kind with
    /// that id if there is one, else the block kind whose id is the low
    /// byte of it.
    pub open spec fn kind_for_id(registry: &ItemRegistry, item_id: i16) -> ItemStackType {
        match registry.spec_get_item(item_id) {
            Some(i) => ItemStackType::Item(i),
            None => ItemStackType::Block(registry.spec_get_block(item_id as u8)->0),
        }
    }

    pub open spec fn id_is_known(registry: &ItemRegistry, item_id: i16) -> bool {
        registry.spec_get_item(item_id) is Some || registry.spec_get_block(item_id as u8) is Some
    }

    pub fn id(&self) -> (r: i16)
        ensures
            r == self.spec_id(),
    {
        self.item.id()
    }

    /// Creates a stack of the item or block with the given id.
    pub fn new(registry: &ItemRegistry, item_id: i16, count: i8, meta: i16) -> (r: Self)
        requires
            Self::id_is_known(registry, item_id),
        ensures
            r.kind() == Self::kind_for_id(registry, item_id),
            r.amount() == count,
            r.meta() == meta,
    {
        let item: ItemStackType;
        if let Some(itemtype) = registry.get_item(item_id) {
            item = ItemStackType::Item(itemtype);
        } else {
            #[verifier::truncate]
            let block_id: u8 = item_id as u8;
            item = ItemStackType::Block(registry.get_block(block_id).unwrap());
        }
        Self { item, count, meta }
    }

    /// Whether `other` has the same type (but not necessarily the same
    /// amount) as `self`.
    pub fn has_same_type(&self, other: &Self) -> (r: bool)
        ensures
            r == (self.spec_id() == other.spec_id()),
    {
        self.id() == other.id()
    }

    pub fn set_damage(&mut self, damage: i16)
        ensures
            *final(self) == old(self).spec_set_meta(damage),
    {
        self.meta = damage;
    }

    /// The stack with the same kind and amount and the given damage.
    pub closed spec fn spec_set_meta(&self, meta: i16) -> ItemStack {
        ItemStack { meta, ..*self }
    }

    pub proof fn lemma_set_meta(&self, meta: i16)
        ensures
            self.spec_set_meta(meta).kind() == self.kind(),
            self.spec_set_meta(meta).amount() == self.amount(),
            self.spec_set_meta(meta).meta() == meta,
    {
    }

    /// Whether `other` has the same damage as `self`.
    pub fn has_same_damage(&self, other: &Self) -> (r: bool)
        ensures
            r == (self.meta() == other.meta()),
    {
        self.meta == other.meta
    }

    /// Whether `other` has the same count (but not necessarily the same
    /// type) as `self`.
    pub fn has_same_count(&self, other: &Self) -> (r: bool)
        ensures
            r == (self.amount() == other.amount()),
    {
        self.count == other.count
    }

    /// Whether `other` has the same type and count as `self`.
    pub fn has_same_type_and_count(&self, other: &Self) -> (r: bool)
        ensures
            r == (self.spec_id() == other.spec_id() && self.amount() == other.amount()),
    {
        self.has_same_type(other) && self.count == other.count
    }

    pub open spec fn same_type_and_damage(&self, other: &Self) -> bool {
        self.spec_id() == other.spec_id() && self.meta() == other.meta()
    }

    /// Whether `other` has the same type and damage as `self`.
    pub fn has_same_type_and_damage(&self, other: &Self) -> (r: bool)
        ensures
            r == self.same_type_and_damage(other),
    {
        self.has_same_type(other) && self.has_same_damage(other)
    }

    /// The item type of this stack.
    pub fn item(&self) -> (r: ItemStackType)
        ensures
            r == self.kind(),
    {
        self.item
    }

    /// The number of items in this stack.
    pub fn count(&self) -> (r: i8)
        ensures
            r == self.amount(),
    {
        self.count
    }

    /// What `set_count` returns for a new count: an error if the count is
    /// zero or above the stack size, else the count.
    pub open spec fn set_count_result(&self, count: i8) -> Result<i8, ItemStackError> {
        if count == 0 {
            Err(ItemStackError::EmptyStack)
        } else if count > self.spec_stack_size() {
            Err(ItemStackError::ExceedsStackSize)
        } else {
            Ok(count)
        }
    }

    /// Sets the count. Fails, and leaves the stack as it was, when the new
    /// count is zero or exceeds the stack size of the item type.
    pub fn set_count(&mut self, count: i8) -> (r: Result<i8, ItemStackError>)
        ensures
            r == old(self).set_count_result(count),
            r is Ok ==> *final(self) == old(self).with_amount(count),
            r is Err ==> *final(self) == *old(self),
    {
        if count == 0 {
            return Err(ItemStackError::EmptyStack);
        }
        if count > self.item.stack_size() {
            return Err(ItemStackError::ExceedsStackSize);
        }
        self.count = count;
        Ok(self.count)
    }

    /// Sets the count without checking it against the stack size or zero.
    pub fn unchecked_set_count(&mut self, count: i8) -> (r: i8)
        ensures
            r == count,
            *final(self) == old(self).with_amount(count),
    {
        self.count = count;
        self.count
    }

    /// Adds more items. Returns the new count, or fails as `set_count`
    /// does for the sum.
    pub fn add(&mut self, count: i8) -> (r: Result<i8, ItemStackError>)
        requires
            i8::MIN <= old(self).amount() + count <= i8::MAX,
        ensures
            r == old(self).set_count_result((old(self).amount() + count) as i8),
            r is Ok ==> *final(self) == old(self).with_amount((old(self).amount() + count) as i8),
            r is Err ==> *final(self) == *old(self),
    {
        self.set_count(self.count + count)
    }

    /// Adds more items without checking the stack size. Returns the new
    /// count.
    pub fn unchecked_add(&mut self, count: i8) -> (r: i8)
        requires
            i8::MIN <= old(self).amount() + count <= i8::MAX,
        ensures
            r == old(self).amount() + count,
            *final(self) == old(self).with_amount(r),
    {
        self.count = self.count + count;
        self.count
    }

    /// Removes `count` items. Fails, leaving the stack as it was, when it
    /// holds `count` items or fewer. Returns the new count.
    pub fn remove(&mut self, count: i8) -> (r: Result<i8, ItemStackError>)
        requires
            old(self).amount() > count ==> old(self).amount() - count <= i8::MAX,
        ensures
            old(self).amount() <= count ==> *final(self) == *old(self),
            old(self).amount() == count ==> r == Err::<i8, ItemStackError>(
                ItemStackError::EmptyStack,
            ),
            old(self).amount() < count ==> r == Err::<i8, ItemStackError>(
                ItemStackError::NotEnoughAmount,
            ),
            old(self).amount() > count ==> r == Ok::<i8, ItemStackError>(
                (old(self).amount() - count) as i8,
            ) && *final(self) == old(self).with_amount((old(self).amount() - count) as i8),
    {
        if self.count <= count {
            return Err(
                if self.count == count {
                    ItemStackError::EmptyStack
                } else {
                    ItemStackError::NotEnoughAmount
                },
            );
        }
        self.count = self.count - count;
        Ok(self.count)
    }

    /// The stack with the same amount and damage and the given kind.
    pub closed spec fn with_kind(&self, kind: ItemStackType) -> ItemStack {
        ItemStack { item: kind, ..*self }
    }

    pub proof fn lemma_with_kind(&self, kind: ItemStackType)
        ensures
            self.with_kind(kind).kind() == kind,
            self.with_kind(kind).amount() == self.amount(),
            self.with_kind(kind).meta() == self.meta(),
    {
    }

    /// Sets the item type. Fails, leaving the stack as it was, when the
    /// current count exceeds the new type's stack size.
    pub fn set_item(&mut self, item: ItemStackType) -> (r: Result<ItemStackType, ItemStackError>)
        ensures
            old(self).amount() > item.spec_stack_size() ==> r == Err::<
                ItemStackType,
                ItemStackError,
            >(ItemStackError::ExceedsStackSize) && *final(self) == *old(self),
            old(self).amount() <= item.spec_stack_size() ==> r == Ok::<
                ItemStackType,
                ItemStackError,
            >(item) && *final(self) == old(self).with_kind(item),
    {
        if self.count > item.stack_size() {
            return Err(ItemStackError::ExceedsStackSize);
        }
        self.item = item;
        Ok(self.item)
    }

    /// A single item of this stack.
    pub fn get_item(&self) -> (r: ItemStack)
        ensures
            r == self.with_amount(1),
    {
        ItemStack { count: 1, ..*self }
    }

    /// Sets the item type without checking the stack size. Returns the new
    /// item type.
    pub fn unchecked_set_item(&mut self, item: ItemStackType) -> (r: ItemStackType)
        ensures
            r == item,
            *final(self) == old(self).with_kind(item),
    {
        self.item = item;
        self.item
    }

    /// The amount that `take_half` takes: half the count, rounded up.
    pub open spec fn half(&self) -> i8 {
        div_toward_zero(self.amount() + 1, 2) as i8
    }

    /// Splits the stack in half, returning the rest and the taken half.
    /// If the count is odd the rest holds the fewer items.
    pub fn take_half(self) -> (r: (Option<ItemStack>, ItemStack))
        requires
            self.amount() < i8::MAX,
        ensures
            r == self.spec_take(self.half()),
    {
        let c: i8 = self.count + 1;
        let half: i8 = if c >= 0 {
            c / 2
        } else {
            -((-c) / 2)
        };
        self.take(half)
    }

    /// What `take` returns: nothing and the stack itself when it holds
    /// fewer than `amount` items, else the rest and the taken part.
    pub open spec fn spec_take(&self, amount: i8) -> (Option<ItemStack>, ItemStack) {
        if self.amount() < amount {
            (None, *self)
        } else {
            (Some(self.with_amount((self.amount() - amount) as i8)), self.with_amount(amount))
        }
    }

    /// Splits the stack by removing `amount` items. Returns the rest, if
    /// there were enough items, and the taken part.
    pub fn take(self, amount: i8) -> (r: (Option<ItemStack>, ItemStack))
        requires
            self.amount() - amount <= i8::MAX,
        ensures
            r == self.spec_take(amount),
    {
        let mut this = self;
        if this.count < amount {
            return (None, this);
        }
        let count_left = this.count - amount;
        let taken = ItemStack { count: amount, ..this };
        this.count = count_left;
        (Some(this), taken)
    }

    /// The count after merging `other` into `self`: the sum, capped at the
    /// stack size.
    pub open spec fn merged_amount(&self, other: &Self) -> i8 {
        let sum = self.amount() + other.amount();
        if sum <= self.spec_stack_size() {
            sum as i8
        } else {
            self.spec_stack_size()
        }
    }

    /// Merges another stack into this one, up to the stack size. Fails,
    /// leaving `self` as it was, when the two differ in type or damage.
    pub fn merge_with(&mut self, other: Self) -> (r: Result<(), ItemStackError>)
        requires
            old(self).same_type_and_damage(&other) ==> i8::MIN <= old(self).amount()
                + other.amount() <= i8::MAX,
        ensures
            !old(self).same_type_and_damage(&other) ==> r == Err::<(), ItemStackError>(
                ItemStackError::IncompatibleStacks,
            ) && *final(self) == *old(self),
            old(self).same_type_and_damage(&other) ==> r == Ok::<(), ItemStackError>(())
                && *final(self) == old(self).with_amount(old(self).merged_amount(&other)),
    {
        if !self.has_same_type_and_damage(&other) {
            return Err(ItemStackError::IncompatibleStacks);
        }
        let new_count = min_of(self.count + other.count, self.item.stack_size());
        self.count = new_count;
        Ok(())
    }

    /// Whether `transfer_to` refuses to move `n` items out of this stack.
    pub open spec fn transfer_refused(&self, n: i8) -> bool {
        self.amount() <= n || n == 0
    }

    /// How many items `transfer_to` moves: at most `n`, at most what this
    /// stack holds, and at most the room left in `other`.
    pub open spec fn transfer_amount(&self, n: i8, other: &Self) -> i8 {
        min_i8(
            min_i8(saturating_sub_i8(other.spec_stack_size(), other.amount()), self.amount()),
            n,
        )
    }

    /// Transfers up to `n` items to `other`. Fails, changing nothing, when
    /// `n` is zero or this stack holds `n` items or fewer.
    pub fn transfer_to(&mut self, n: i8, other: &mut Self) -> (r: Result<(), ItemStackError>)
        requires
            !old(self).transfer_refused(n) ==> {
                let t = old(self).transfer_amount(n, old(other));
                &&& i8::MIN <= old(self).amount() - t <= i8::MAX
                &&& i8::MIN <= old(other).amount() + t <= i8::MAX
            },
        ensures
            old(self).transfer_refused(n) ==> {
                &&& *final(self) == *old(self)
                &&& *final(other) == *old(other)
                &&& r == Err::<(), ItemStackError>(
                    if old(self).amount() == n || n == 0 {
                        ItemStackError::EmptyStack
                    } else {
                        ItemStackError::NotEnoughAmount
                    },
                )
            },
            !old(self).transfer_refused(n) ==> {
                let t = old(self).transfer_amount(n, old(other));
                &&& r == Ok::<(), ItemStackError>(())
                &&& *final(self) == old(self).with_amount((old(self).amount() - t) as i8)
                &&& *final(other) == old(other).with_amount((old(other).amount() + t) as i8)
            },
    {
        if self.count <= n || n == 0 {
            return Err(
                if self.count == n || n == 0 {
                    ItemStackError::EmptyStack
                } else {
                    ItemStackError::NotEnoughAmount
                },
            );
        }
        let max_transfer = saturating_sub(other.item.stack_size(), other.count);
        let transfer = min_of(min_of(max_transfer, self.count), n);
        self.count -= transfer;
        other.count += transfer;
        Ok(())
    }

    /// The room that `drain_into_bounded` counts in `other`: this stack's
    /// stack size less what `other` holds.
    pub open spec fn drain_space(&self, other: &Self) -> int {
        self.spec_stack_size() - other.amount()
    }

    /// How many items `drain_into_bounded` moves.
    pub open spec fn drain_moving(&self, n: i8, other: &Self) -> int {
        let space = self.drain_space(other);
        let m = if space <= n {
            space
        } else {
            n as int
        };
        if m <= self.amount() {
            m
        } else {
            self.amount() as int
        }
    }

    /// The inputs on which `drain_into_bounded` computes within `i8` and
    /// both of its counts are accepted.
    pub open spec fn drain_defined(&self, n: i8, other: &Self) -> bool {
        let moving = self.drain_moving(n, other);
        self.spec_id() == other.spec_id() ==> {
            &&& i8::MIN <= self.drain_space(other) <= i8::MAX
            &&& i8::MIN <= moving + other.amount() <= i8::MAX
            &&& other.set_count_result((moving + other.amount()) as i8) is Ok
            &&& i8::MIN <= self.amount() - moving <= i8::MAX
            &&& self.amount() - moving != 0 ==> {
                &&& i8::MIN <= moving - self.amount()
                &&& self.set_count_result((moving - self.amount()) as i8) is Ok
            }
        }
    }

    /// Moves up to `n` items of this stack into `other`, bounded by the
    /// room left in `other`. Returns what is left of this stack, with its
    /// count set to the moved amount less the amount it held.
    pub fn drain_into_bounded(self, n: i8, other: &mut Self) -> (r: Result<
        Option<Self>,
        ItemStackError,
    >)
        requires
            self.drain_defined(n, old(other)),
        ensures
            self.spec_id() != old(other).spec_id() ==> r == Err::<Option<Self>, ItemStackError>(
                ItemStackError::IncompatibleStacks,
            ) && *final(other) == *old(other),
            self.spec_id() == old(other).spec_id() ==> {
                let moving = self.drain_moving(n, old(other));
                &&& *final(other) == old(other).with_amount((moving + old(other).amount()) as i8)
                &&& self.amount() - moving == 0 ==> r == Ok::<Option<Self>, ItemStackError>(None)
                &&& self.amount() - moving != 0 ==> r == Ok::<Option<Self>, ItemStackError>(
                    Some(self.with_amount((moving - self.amount()) as i8)),
                )
            },
    {
        let mut this = self;
        if !this.has_same_type(other) {
            return Err(ItemStackError::IncompatibleStacks);
        }
        let stack_size = this.item.stack_size();
        let space_in_other = stack_size - other.count();
        let items_in_self = this.count();
        let moving_items = min_of(min_of(space_in_other, n), items_in_self);
        other.set_count(moving_items + other.count()).unwrap();
        if this.count() - moving_items == 0 {
            Ok(None)
        } else {
            this.set_count(moving_items - items_in_self).unwrap();
            Ok(Some(this))
        }
    }

    /// Whether a stack of this kind breaks at the given damage.
    pub open spec fn breaks_at(&self, meta: int) -> bool {
        match self.kind() {
            ItemStackType::Item(i) => match i.durability {
                Some(d) => meta >= d,
                None => false,
            },
            ItemStackType::Block(_) => false,
        }
    }

    /// Damages the item by `amount`. Returns `true` when the item is
    /// broken. Blocks take no damage.
    pub fn damage(&mut self, amount: i16) -> (broken: bool)
        requires
            old(self).kind() is Item ==> i16::MIN <= old(self).meta() + amount <= i16::MAX,
        ensures
            old(self).kind() is Block ==> !broken && *final(self) == *old(self),
            old(self).kind() is Item ==> *final(self) == old(self).spec_set_meta(
                (old(self).meta() + amount) as i16,
            ) && broken == old(self).breaks_at(old(self).meta() + amount),
    {
        let self_durability = match &self.item {
            ItemStackType::Item(i) => i.durability,
            ItemStackType::Block(_) => {
                return false;
            },
        };
        self.meta += amount;
        if let Some(durability) = self_durability {
            self.meta >= durability
        } else {
            false
        }
    }

    /// The damage the items have taken.
    pub fn damage_taken(&self) -> (r: i16)
        ensures
            r == self.meta(),
    {
        self.meta
    }

    /// Whether the contents of `other` could be merged with this stack: the
    /// same kind and damage, and both kinds stack beyond one item. The
    /// counts do not matter.
    pub fn stackable_types(&self, other: &Self) -> (r: bool)
        ensures
            r == (self.spec_id() == other.spec_id() && self.meta() == other.meta()
                && self.spec_stack_size() > 1 && other.spec_stack_size() > 1),
    {
        self.has_same_type(other) && self.has_same_damage(other) && self.stack_size() > 1
            && other.stack_size() > 1
    }

    /// How many items of this kind stack together.
    pub fn stack_size(&self) -> (r: i8)
        ensures
            r == self.spec_stack_size(),
    {
        self.item.stack_size()
    }
}

/// Builds item stacks of item kinds.
pub struct ItemStackBuilder {
    item: ItemKind,
    count: i8,
    meta: i16,
}

impl ItemStackBuilder {
    pub closed spec fn item_kind(&self) -> ItemKind {
        self.item
    }

    pub closed spec fn amount(&self) -> i8 {
        self.count
    }

    pub closed spec fn meta(&self) -> i16 {
        self.meta
    }

    /// A builder of one undamaged item of the kind with id 1.
    pub fn new(registry: &ItemRegistry) -> (r: Self)
        requires
            registry.spec_get_item(1) is Some,
        ensures
            r.item_kind() == registry.spec_get_item(1)->0,
            r.amount() == 1,
            r.meta() == 0,
    {
        let item = registry.get_item(1).unwrap();
        Self { item: item, count: 1, meta: 0 }
    }

    /// A builder of one undamaged item of the given kind.
    pub fn with_item(item: ItemKind) -> (r: Self)
        ensures
            r.item_kind() == item,
            r.amount() == 1,
            r.meta() == 0,
    {
        Self { item, count: 1, meta: 0 }
    }

    pub fn item(self, item: ItemKind) -> (r: Self)
        ensures
            r.item_kind() == item,
            r.amount() == self.amount(),
            r.meta() == self.meta(),
    {
        Self { item, ..self }
    }

    /// Sets the count, which must be positive and fit in a stack's count.
    pub fn count(self, count: u32) -> (r: Self)
        requires
            0 < count <= i8::MAX,
        ensures
            r.item_kind() == self.item_kind(),
            r.amount() == count,
            r.meta() == self.meta(),
    {
        Self { count: count as i8, ..self }
    }

    pub fn damage(self, damage: i16) -> (r: Self)
        ensures
            r.item_kind() == self.item_kind(),
            r.amount() == self.amount(),
            r.meta() == damage,
    {
        let mut this = self;
        this.meta = damage;
        this
    }

    /// Applies the damage if there is one, else changes nothing.
    pub fn apply_damage(self, damage: Option<i16>) -> (r: Self)
        ensures
            r.item_kind() == self.item_kind(),
            r.amount() == self.amount(),
            r.meta() == match damage {
                Some(d) => d,
                None => self.meta(),
            },
    {
        match damage {
            Some(damage) => self.damage(damage),
            None => self,
        }
    }

    pub fn same_meta_as(self, other: &Self) -> (r: Self)
        ensures
            r.item_kind() == self.item_kind(),
            r.amount() == self.amount(),
            r.meta() == other.meta(),
    {
        let mut this = self;
        this.meta = other.meta;
        this
    }
}

impl From<ItemStackBuilder> for ItemStack {
    fn from(it: ItemStackBuilder) -> (r: Self) {
        ItemStack { item: ItemStackType::Item(it.item), count: it.count, meta: it.meta }
    }
}

impl vstd::std_specs::convert::FromSpecImpl<ItemStackBuilder> for ItemStack {
    open spec fn obeys_from_spec() -> bool {
        true
    }

    open spec fn from_spec(v: ItemStackBuilder) -> Self {
        ItemStack::spec_new(ItemStackType::Item(v.item_kind()), v.amount(), v.meta())
    }
}

/// Taking part of a stack loses no items: the rest and the taken part
/// together hold what the stack held, and both keep its kind and damage.
pub proof fn law_take_conserves(s: ItemStack, amount: i8)
    requires
        amount <= s.amount(),
        s.amount() - amount <= i8::MAX,
    ensures
        s.spec_take(amount).0 is Some,
        s.spec_take(amount).0->0.amount() + s.spec_take(amount).1.amount() == s.amount(),
        s.spec_take(amount).0->0.kind() == s.kind(),
        s.spec_take(amount).1.kind() == s.kind(),
        s.spec_take(amount).0->0.meta() == s.meta(),
        s.spec_take(amount).1.meta() == s.meta(),
{
    s.lemma_with_amount((s.amount() - amount) as i8);
    s.lemma_with_amount(amount);
}

/// Taking items out of a stack and merging them back in gives the stack
/// back, when it fits in one stack.
pub proof fn law_take_then_merge_restores(s: ItemStack, amount: i8)
    requires
        0 <= amount <= s.amount() <= s.spec_stack_size(),
    ensures
        s.spec_take(amount).0 is Some,
        s.spec_take(amount).0->0.same_type_and_damage(&s.spec_take(amount).1),
        s.spec_take(amount).0->0.with_amount(
            s.spec_take(amount).0->0.merged_amount(&s.spec_take(amount).1),
        ) == s,
{
    let rest = s.with_amount((s.amount() - amount) as i8);
    let taken = s.with_amount(amount);
    s.lemma_with_amount((s.amount() - amount) as i8);
    s.lemma_with_amount(amount);
    let merged = rest.with_amount(rest.merged_amount(&taken));
    rest.lemma_with_amount(rest.merged_amount(&taken));
    ItemStack::lemma_ext_equal(merged, s);
}

/// `take_half` gives the taken part half the items rounded up and leaves
/// the rest with half rounded down.
pub proof fn law_take_half_splits(s: ItemStack)
    requires
        0 <= s.amount() < i8::MAX,
    ensures
        s.spec_take(s.half()).0 is Some,
        s.spec_take(s.half()).1.amount() == (s.amount() + 1) / 2,
        s.spec_take(s.half()).0->0.amount() == s.amount() / 2,
{
    let h = s.half();
    assert(h == (s.amount() + 1) / 2);
    s.lemma_with_amount((s.amount() - h) as i8);
    s.lemma_with_amount(h);
}

/// Merging never fills a stack beyond its stack size when it was within
/// it, and keeps every item when the sum fits.
pub proof fn law_merge_within_stack_size(s: ItemStack, other: ItemStack)
    requires
        s.amount() <= s.spec_stack_size(),
        0 <= other.amount(),
    ensures
        s.merged_amount(&other) <= s.spec_stack_size(),
        s.merged_amount(&other) >= s.amount(),
        s.amount() + other.amount() <= s.spec_stack_size() ==> s.merged_amount(&other)
            == s.amount() + other.amount(),
{
}

/// A transfer of a positive number of items into a stack within its stack
/// size keeps the total, moves between none and `n` items, leaves the
/// source non-empty and the target within its stack size.
pub proof fn law_transfer_conserves(a: ItemStack, b: ItemStack, n: i8)
    requires
        0 < n,
        !a.transfer_refused(n),
        0 <= b.amount() <= b.spec_stack_size(),
    ensures
        0 <= a.transfer_amount(n, &b) <= n,
        (a.amount() - a.transfer_amount(n, &b)) + (b.amount() + a.transfer_amount(n, &b))
            == a.amount() + b.amount(),
        a.amount() - a.transfer_amount(n, &b) > 0,
        b.amount() + a.transfer_amount(n, &b) <= b.spec_stack_size(),
{
}

} // verus!
