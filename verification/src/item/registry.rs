//! The kinds of items and blocks that stacks are made of.
use vstd::prelude::*;

verus! {

/// What an item stack needs to know of an item kind.
#[derive(Clone, Copy, Debug, PartialEq, Eq, Structural)]
pub struct ItemKind {
    pub id: i16,
    /// The most items of this kind that one stack holds.
    pub stack_size: i8,
    /// How much damage breaks the item, if it can break.
    pub durability: Option<i16>,
}

/// What an item stack needs to know of a block kind.
#[derive(Clone, Copy, Debug, PartialEq, Eq, Structural)]
pub struct BlockKind {
    pub id: u8,
    /// The most blocks of this kind that one stack holds.
    pub item_stack_size: i8,
    /// Whether the block blocks fluids and entities.
    pub solid: bool,
}

/// The registered item and block kinds.
pub struct ItemRegistry {
    items: Vec<ItemKind>,
    blocks: Vec<BlockKind>,
}

/// The first kind in `kinds` with the given id.
pub open spec fn first_item(kinds: Seq<ItemKind>, id: i16) -> Option<ItemKind>
    decreases kinds.len(),
{
    if kinds.len() == 0 {
        None
    } else if kinds[0].id == id {
        Some(kinds[0])
    } else {
        first_item(kinds.skip(1), id)
    }
}

/// The first kind in `kinds` with the given id.
pub open spec fn first_block(kinds: Seq<BlockKind>, id: u8) -> Option<BlockKind>
    decreases kinds.len(),
{
    if kinds.len() == 0 {
        None
    } else if kinds[0].id == id {
        Some(kinds[0])
    } else {
        first_block(kinds.skip(1), id)
    }
}

proof fn lemma_first_item_found(kinds: Seq<ItemKind>, i: int, id: i16)
    requires
        0 <= i < kinds.len(),
        kinds[i].id == id,
        forall|k: int| 0 <= k < i ==> kinds[k].id != id,
    ensures
        first_item(kinds, id) == Some(kinds[i]),
    decreases i,
{
    if i > 0 {
        lemma_first_item_found(kinds.skip(1), i - 1, id);
    }
}

proof fn lemma_first_item_absent(kinds: Seq<ItemKind>, id: i16)
    requires
        forall|k: int| 0 <= k < kinds.len() ==> kinds[k].id != id,
    ensures
        first_item(kinds, id) is None,
    decreases kinds.len(),
{
    if kinds.len() > 0 {
        lemma_first_item_absent(kinds.skip(1), id);
    }
}

proof fn lemma_first_block_found(kinds: Seq<BlockKind>, i: int, id: u8)
    requires
        0 <= i < kinds.len(),
        kinds[i].id == id,
        forall|k: int| 0 <= k < i ==> kinds[k].id != id,
    ensures
        first_block(kinds, id) == Some(kinds[i]),
    decreases i,
{
    if i > 0 {
        lemma_first_block_found(kinds.skip(1), i - 1, id);
    }
}

proof fn lemma_first_block_absent(kinds: Seq<BlockKind>, id: u8)
    requires
        forall|k: int| 0 <= k < kinds.len() ==> kinds[k].id != id,
    ensures
        first_block(kinds, id) is None,
    decreases kinds.len(),
{
    if kinds.len() > 0 {
        lemma_first_block_absent(kinds.skip(1), id);
    }
}

proof fn lemma_first_item_has_id(kinds: Seq<ItemKind>, id: i16)
    ensures
        first_item(kinds, id) matches Some(k) ==> k.id == id,
    decreases kinds.len(),
{
    if kinds.len() > 0 {
        lemma_first_item_has_id(kinds.skip(1), id);
    }
}

proof fn lemma_first_block_has_id(kinds: Seq<BlockKind>, id: u8)
    ensures
        first_block(kinds, id) matches Some(k) ==> k.id == id,
    decreases kinds.len(),
{
    if kinds.len() > 0 {
        lemma_first_block_has_id(kinds.skip(1), id);
    }
}

impl ItemRegistry {
    /// A kind found under an id has that id.
    pub proof fn lemma_found_kinds_have_their_id(&self, item_id: i16, block_id: u8)
        ensures
            self.spec_get_item(item_id) matches Some(k) ==> k.id == item_id,
            self.spec_get_block(block_id) matches Some(k) ==> k.id == block_id,
    {
        lemma_first_item_has_id(self.items(), item_id);
        lemma_first_block_has_id(self.blocks(), block_id);
    }

    pub closed spec fn items(&self) -> Seq<ItemKind> {
        self.items@
    }

    pub closed spec fn blocks(&self) -> Seq<BlockKind> {
        self.blocks@
    }

    pub open spec fn spec_get_item(&self, id: i16) -> Option<ItemKind> {
        first_item(self.items(), id)
    }

    pub open spec fn spec_get_block(&self, id: u8) -> Option<BlockKind> {
        first_block(self.blocks(), id)
    }

    pub fn new() -> (r: Self)
        ensures
            r.items() == Seq::<ItemKind>::empty(),
            r.blocks() == Seq::<BlockKind>::empty(),
    {
        ItemRegistry { items: Vec::new(), blocks: Vec::new() }
    }

    pub fn register_item(&mut self, item: ItemKind)
        ensures
            final(self).items() == old(self).items().push(item),
            final(self).blocks() == old(self).blocks(),
    {
        self.items.push(item);
    }

    pub fn register_block(&mut self, block: BlockKind)
        ensures
            final(self).blocks() == old(self).blocks().push(block),
            final(self).items() == old(self).items(),
    {
        self.blocks.push(block);
    }

    /// The item kind with the given id, the first registered one if several.
    pub fn get_item(&self, id: i16) -> (r: Option<ItemKind>)
        ensures
            r == self.spec_get_item(id),
    {
        let mut i: usize = 0;
        while i < self.items.len()
            invariant
                i <= self.items@.len(),
                forall|k: int| 0 <= k < i ==> self.items@[k].id != id,
            decreases self.items@.len() - i,
        {
            if self.items[i].id == id {
                proof {
                    lemma_first_item_found(self.items@, i as int, id);
                }
                return Some(self.items[i]);
            }
            i = i + 1;
        }
        proof {
            lemma_first_item_absent(self.items@, id);
        }
        None
    }

    /// The block kind with the given id, the first registered one if several.
    pub fn get_block(&self, id: u8) -> (r: Option<BlockKind>)
        ensures
            r == self.spec_get_block(id),
    {
        let mut i: usize = 0;
        while i < self.blocks.len()
            invariant
                i <= self.blocks@.len(),
                forall|k: int| 0 <= k < i ==> self.blocks@[k].id != id,
            decreases self.blocks@.len() - i,
        {
            if self.blocks[i].id == id {
                proof {
                    lemma_first_block_found(self.blocks@, i as int, id);
                }
                return Some(self.blocks[i]);
            }
            i = i + 1;
        }
        proof {
            lemma_first_block_absent(self.blocks@, id);
        }
        None
    }
}

/// After registering an item kind, looking up an id finds what it found
/// before if it found anything, else the new kind if it has that id: the
/// first kind registered under an id stays.
pub proof fn law_register_item_then_get(items: Seq<ItemKind>, k: ItemKind, id: i16)
    ensures
        first_item(items.push(k), id) == (if first_item(items, id) is Some {
            first_item(items, id)
        } else if k.id == id {
            Some(k)
        } else {
            None
        }),
    decreases items.len(),
{
    if items.len() > 0 {
        assert(items.push(k)[0] == items[0]);
        assert(items.push(k).skip(1) =~= items.skip(1).push(k));
        law_register_item_then_get(items.skip(1), k, id);
    } else {
        assert(items.push(k)[0] == k);
        assert(items.push(k).skip(1) =~= Seq::<ItemKind>::empty());
        assert(first_item(Seq::<ItemKind>::empty(), id) is None);
    }
}

/// The same for block kinds.
pub proof fn law_register_block_then_get(blocks: Seq<BlockKind>, k: BlockKind, id: u8)
    ensures
        first_block(blocks.push(k), id) == (if first_block(blocks, id) is Some {
            first_block(blocks, id)
        } else if k.id == id {
            Some(k)
        } else {
            None
        }),
    decreases blocks.len(),
{
    if blocks.len() > 0 {
        assert(blocks.push(k)[0] == blocks[0]);
        assert(blocks.push(k).skip(1) =~= blocks.skip(1).push(k));
        law_register_block_then_get(blocks.skip(1), k, id);
    } else {
        assert(blocks.push(k)[0] == k);
        assert(blocks.push(k).skip(1) =~= Seq::<BlockKind>::empty());
        assert(first_block(Seq::<BlockKind>::empty(), id) is None);
    }
}

} // verus!
