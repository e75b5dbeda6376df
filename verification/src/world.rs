//! Blocks and chunks.
use vstd::prelude::*;

use crate::game::BlockPosition;

pub mod legacy;

verus! {

/// The state of one block: its type, metadata and light levels.
#[derive(Clone, Copy, Debug, PartialEq, Eq, Structural)]
pub struct BlockState {
    pub b_type: u8,
    pub b_metadata: u8,
    pub b_light: u8,
    pub b_skylight: u8,
}

impl BlockState {
    pub open spec fn spec_new(b_type: u8, b_metadata: u8) -> BlockState {
        BlockState { b_type, b_metadata, b_light: 0, b_skylight: 0 }
    }

    /// A block of the given type and metadata, unlit.
    pub fn new(b_type: u8, b_metadata: u8) -> (r: Self)
        ensures
            r == Self::spec_new(b_type, b_metadata),
    {
        BlockState { b_type, b_metadata, b_light: 0, b_skylight: 0 }
    }

    /// An air block.
    pub fn air() -> (r: Self)
        ensures
            r == Self::spec_new(0, 0),
    {
        Self::new(0, 0)
    }
}

/// The position of a chunk column, in chunks.
#[derive(Clone, Copy, Debug, PartialEq, Eq)]
pub struct ChunkCoords {
    pub x: i32,
    pub z: i32,
}

/// One section of a chunk column: its blocks in storage order.
pub struct ChunkSection {
    pub blocks: Vec<BlockState>,
}

impl ChunkSection {
    pub fn data(&self) -> (r: &Vec<BlockState>)
        ensures
            r@ == self.blocks@,
    {
        &self.blocks
    }
}

/// A chunk column: its position and its sections from the bottom up;
/// a missing section is all air.
pub struct Chunk {
    pub position: ChunkCoords,
    pub sections: Vec<Option<ChunkSection>>,
}

impl Chunk {
    pub fn position(&self) -> (r: ChunkCoords)
        ensures
            r == self.position,
    {
        self.position
    }

    pub fn sections(&self) -> (r: &Vec<Option<ChunkSection>>)
        ensures
            r == &self.sections,
    {
        &self.sections
    }
}

/// The map that a list of (position, block) entries describes: a later
/// entry for a position replaces an earlier one.
pub open spec fn entries_map(s: Seq<(BlockPosition, BlockState)>) -> Map<BlockPosition, BlockState>
    decreases s.len(),
{
    if s.len() == 0 {
        Map::empty()
    } else {
        entries_map(s.drop_last()).insert(s.last().0, s.last().1)
    }
}

proof fn lemma_entries_last(s: Seq<(BlockPosition, BlockState)>, i: int, p: BlockPosition)
    requires
        0 <= i < s.len(),
        s[i].0 == p,
        forall|j: int| i < j < s.len() ==> s[j].0 != p,
    ensures
        entries_map(s).contains_key(p),
        entries_map(s)[p] == s[i].1,
    decreases s.len(),
{
    if i < s.len() - 1 {
        lemma_entries_last(s.drop_last(), i, p);
    }
}

proof fn lemma_entries_absent(s: Seq<(BlockPosition, BlockState)>, p: BlockPosition)
    requires
        forall|j: int| 0 <= j < s.len() ==> s[j].0 != p,
    ensures
        !entries_map(s).contains_key(p),
    decreases s.len(),
{
    if s.len() > 0 {
        lemma_entries_absent(s.drop_last(), p);
    }
}

proof fn lemma_entries_update(
    s: Seq<(BlockPosition, BlockState)>,
    i: int,
    p: BlockPosition,
    v: BlockState,
)
    requires
        0 <= i < s.len(),
        s[i].0 == p,
        forall|j: int| i < j < s.len() ==> s[j].0 != p,
    ensures
        entries_map(s.update(i, (p, v))) == entries_map(s).insert(p, v),
    decreases s.len(),
{
    let t = s.update(i, (p, v));
    if i == s.len() - 1 {
        assert(t.drop_last() =~= s.drop_last());
        assert(entries_map(t) =~= entries_map(s).insert(p, v));
    } else {
        lemma_entries_update(s.drop_last(), i, p, v);
        assert(t.drop_last() =~= s.drop_last().update(i, (p, v)));
        assert(entries_map(t) =~= entries_map(s).insert(p, v));
    }
}

/// The known blocks of the worlds, by position.
pub struct Blocks {
    entries: Vec<(BlockPosition, BlockState)>,
}

impl View for Blocks {
    type V = Map<BlockPosition, BlockState>;

    open spec fn view(&self) -> Map<BlockPosition, BlockState> {
        self.map()
    }
}

impl Blocks {
    pub closed spec fn map(&self) -> Map<BlockPosition, BlockState> {
        entries_map(self.entries@)
    }

    /// No known blocks.
    pub fn new() -> (r: Self)
        ensures
            r@ == Map::<BlockPosition, BlockState>::empty(),
    {
        Blocks { entries: Vec::new() }
    }

    /// The block at `p`, if it is known.
    pub fn get(&self, p: BlockPosition) -> (r: Option<BlockState>)
        ensures
            r == (if self@.contains_key(p) {
                Some(self@[p])
            } else {
                None
            }),
    {
        let mut i: usize = self.entries.len();
        while i > 0
            invariant
                i <= self.entries@.len(),
                forall|j: int| i <= j < self.entries@.len() ==> self.entries@[j].0 != p,
            decreases i,
        {
            i = i - 1;
            if self.entries[i].0 == p {
                proof {
                    lemma_entries_last(self.entries@, i as int, p);
                }
                return Some(self.entries[i].1);
            }
        }
        proof {
            lemma_entries_absent(self.entries@, p);
        }
        None
    }

    /// Sets the block at `p`.
    pub fn set(&mut self, p: BlockPosition, state: BlockState)
        ensures
            final(self)@ == old(self)@.insert(p, state),
    {
        let mut i: usize = self.entries.len();
        while i > 0
            invariant
                i <= self.entries@.len(),
                self.entries@ == old(self).entries@,
                forall|j: int| i <= j < self.entries@.len() ==> self.entries@[j].0 != p,
            decreases i,
        {
            i = i - 1;
            if self.entries[i].0 == p {
                proof {
                    lemma_entries_update(self.entries@, i as int, p, state);
                }
                self.entries.set(i, (p, state));
                return;
            }
        }
        let ghost before = self.entries@;
        self.entries.push((p, state));
        assert(self.entries@.drop_last() =~= before);
    }
}

/// Reading a block gives back what was last set there, and setting a block
/// leaves every other position as it was.
pub proof fn law_get_after_set(
    m: Map<BlockPosition, BlockState>,
    p: BlockPosition,
    s: BlockState,
    q: BlockPosition,
)
    ensures
        m.insert(p, s).contains_key(p),
        m.insert(p, s)[p] == s,
        q != p ==> m.insert(p, s).contains_key(q) == m.contains_key(q),
        q != p && m.contains_key(q) ==> m.insert(p, s)[q] == m[q],
{
}

} // verus!
