//! Flowing water and lava.
//!
//! A fluid block's metadata is its flow decay: 0 for a source, 1 to 7 for
//! flowing fluid that thins out with distance, and 8 or more for fluid
//! falling from above.
use vstd::prelude::*;

use rand::Rng;

use crate::game::BlockPosition;
use crate::item::registry::ItemRegistry;
use crate::protocol::packets::Face;
use crate::world::{BlockState, Blocks};

pub mod lava;
pub mod water;

verus! {

#[derive(Clone, Copy, Debug, PartialEq, Eq, Structural)]
pub enum FluidMaterial {
    Lava,
    Water,
}

/// The three flags that the game's block setter takes along with a block.
#[derive(Clone, Copy, Debug, PartialEq, Eq, Structural)]
pub struct SetBlockFlags(pub bool, pub bool, pub bool);

/// What fluid flow asks of the game, in order.
#[derive(Clone, Copy, Debug, PartialEq, Eq, Structural)]
pub enum FluidEvent {
    /// The block at `position` was set to `state`.
    SetBlock { position: BlockPosition, state: BlockState, flags: SetBlockFlags },
    /// Spawn the items that the block `state` drops at `position`.
    DropItems { position: BlockPosition, state: BlockState },
    /// After `delay` ticks, tick the block at `position` in `world` again if
    /// its type is still `id`.
    ScheduleTick { position: BlockPosition, world: i32, delay: u128, id: u8 },
    /// On the next tick, set the block at `position` to `state` again.
    SetNextTick { position: BlockPosition, state: BlockState },
    /// Play the extinguish sound at `position`.
    Extinguish { position: BlockPosition },
}

/// The blocks that fluids read and change, the block kinds they consult,
/// and the requests they have made of the game so far.
pub struct FluidWorld {
    pub blocks: Blocks,
    pub registry: ItemRegistry,
    pub events: Vec<FluidEvent>,
}

/// The part of a fluid world that flow changes: its blocks and its events.
pub type FluidModel = (Map<BlockPosition, BlockState>, Seq<FluidEvent>);

/// `p` with its world replaced by `world`.
pub open spec fn at(p: BlockPosition, world: i32) -> BlockPosition {
    BlockPosition { world, ..p }
}

/// The type of the block at `p`; unknown blocks read as air.
pub open spec fn id_at(m: Map<BlockPosition, BlockState>, p: BlockPosition) -> u8 {
    if m.contains_key(p) {
        m[p].b_type
    } else {
        0
    }
}

/// The metadata of the block at `p`; unknown blocks read as 0.
pub open spec fn meta_at(m: Map<BlockPosition, BlockState>, p: BlockPosition) -> u8 {
    if m.contains_key(p) {
        m[p].b_metadata
    } else {
        0
    }
}

/// Whether the block at `p` is known and of a kind registered as solid.
pub open spec fn solid_at(
    m: Map<BlockPosition, BlockState>,
    reg: ItemRegistry,
    p: BlockPosition,
) -> bool {
    m.contains_key(p) && match reg.spec_get_block(m[p].b_type) {
        Some(b) => b.solid,
        None => false,
    }
}

/// Whether the block at `p` stops fluid: a solid block other than air.
pub open spec fn blocks_flow(
    m: Map<BlockPosition, BlockState>,
    reg: ItemRegistry,
    p: BlockPosition,
) -> bool {
    id_at(m, p) != 0 && solid_at(m, reg, p)
}

pub open spec fn spec_is_water(id: u8) -> bool {
    id == 8 || id == 9
}

pub open spec fn spec_is_lava(id: u8) -> bool {
    id == 10 || id == 11
}

/// Whether the block id is moving or still water.
pub fn is_water(id: u8) -> (r: bool)
    ensures
        r == spec_is_water(id),
{
    id == 8 || id == 9
}

/// Whether the block id is moving or still lava.
pub fn is_lava(id: u8) -> (r: bool)
    ensures
        r == spec_is_lava(id),
{
    id == 10 || id == 11
}

/// The model after setting the block at `p`.
pub open spec fn set_model(w: FluidModel, p: BlockPosition, s: BlockState, f: SetBlockFlags) -> FluidModel {
    (w.0.insert(p, s), w.1.push(FluidEvent::SetBlock { position: p, state: s, flags: f }))
}

/// The model after one more event.
pub open spec fn event_model(w: FluidModel, e: FluidEvent) -> FluidModel {
    (w.0, w.1.push(e))
}

/// Whether the coordinates around `p` that flow may visit, up to `d`
/// blocks away horizontally and one block up or down, fit in `i32`.
pub open spec fn flow_room(p: BlockPosition, d: int) -> bool {
    &&& i32::MIN + d <= p.x <= i32::MAX - d
    &&& i32::MIN + d <= p.z <= i32::MAX - d
    &&& i32::MIN + 1 <= p.y <= i32::MAX - 1
}

/// The horizontal neighbour of `p` in direction `k`, in `world`: west,
/// east, north and south for `k` from 0 to 3.
pub open spec fn neighbor(p: BlockPosition, k: int, world: i32) -> BlockPosition {
    BlockPosition {
        x: (if k == 0 {
            p.x - 1
        } else if k == 1 {
            p.x + 1
        } else {
            p.x as int
        }) as i32,
        y: p.y,
        z: (if k == 2 {
            p.z - 1
        } else if k == 3 {
            p.z + 1
        } else {
            p.z as int
        }) as i32,
        world,
    }
}

/// The block below `p`.
pub open spec fn below(p: BlockPosition) -> BlockPosition {
    p.spec_offset(0, -1, 0)
}

/// The block above `p`.
pub open spec fn above(p: BlockPosition) -> BlockPosition {
    p.spec_offset(0, 1, 0)
}

impl FluidWorld {
    pub open spec fn model(&self) -> FluidModel {
        (self.blocks@, self.events@)
    }

    /// A world with the given blocks and kinds, and no events yet.
    pub fn new(blocks: Blocks, registry: ItemRegistry) -> (r: Self)
        ensures
            r.blocks@ == blocks@,
            r.registry == registry,
            r.events@ == Seq::<FluidEvent>::empty(),
    {
        FluidWorld { blocks, registry, events: Vec::new() }
    }

    /// The type of the block at `p`, air if it is unknown.
    pub fn block_id_at(&self, p: BlockPosition) -> (r: u8)
        ensures
            r == id_at(self.blocks@, p),
    {
        match self.blocks.get(p) {
            Some(b) => b.b_type,
            None => 0,
        }
    }

    /// The metadata of the block at `p` in `world`, 0 if it is unknown.
    pub fn block_meta_at(&self, p: BlockPosition, world: i32) -> (r: u8)
        ensures
            r == meta_at(self.blocks@, at(p, world)),
    {
        match self.blocks.get(BlockPosition { world, ..p }) {
            Some(b) => b.b_metadata,
            None => 0,
        }
    }

    /// The block at `p` in `world`, if it is known.
    pub fn block(&self, p: BlockPosition, world: i32) -> (r: Option<BlockState>)
        ensures
            r == (if self.blocks@.contains_key(at(p, world)) {
                Some(self.blocks@[at(p, world)])
            } else {
                None
            }),
    {
        self.blocks.get(BlockPosition { world, ..p })
    }

    /// Whether the block at `p` is of a kind registered as solid.
    pub fn is_solid_block(&self, p: BlockPosition) -> (r: bool)
        ensures
            r == solid_at(self.blocks@, self.registry, p),
    {
        match self.blocks.get(p) {
            Some(b) => match self.registry.get_block(b.b_type) {
                Some(kind) => kind.solid,
                None => false,
            },
            None => false,
        }
    }

    /// Sets the block at `p` in `world`, and records it for the game.
    pub fn set_block(&mut self, p: BlockPosition, state: BlockState, world: i32, flags: SetBlockFlags)
        ensures
            final(self).model() == set_model(old(self).model(), at(p, world), state, flags),
            final(self).registry == old(self).registry,
    {
        let q = BlockPosition { world, ..p };
        self.blocks.set(q, state);
        self.events.push(FluidEvent::SetBlock { position: q, state, flags });
    }

    /// Records a request for the game.
    pub fn push_event(&mut self, e: FluidEvent)
        ensures
            final(self).model() == event_model(old(self).model(), e),
            final(self).registry == old(self).registry,
    {
        self.events.push(e);
    }
}

/// The flow logic of one fluid: the block id that it places and its
/// material.
#[derive(Clone, Copy, Debug, PartialEq, Eq, Structural)]
pub struct FluidBlock {
    pub id: u8,
    pub material: FluidMaterial,
}

/// Whether `calculate_flow_cost` skips direction `k` when it came from
/// direction `from`: it never looks back the way it came.
pub open spec fn skips(k: int, from: int) -> bool {
    ||| k == 0 && from == 1
    ||| k == 1 && from == 0
    ||| k == 2 && from == 3
    ||| k == 3 && from == 2
}

impl FluidBlock {
    pub open spec fn spec_same_material(&self, id: u8) -> bool {
        match self.material {
            FluidMaterial::Lava => spec_is_lava(id),
            FluidMaterial::Water => spec_is_water(id),
        }
    }

    /// How much the flow decay grows per block: 2 for lava, 1 for water.
    pub open spec fn spec_flow_step(&self) -> int {
        match self.material {
            FluidMaterial::Lava => 2,
            FluidMaterial::Water => 1,
        }
    }

    pub open spec fn spec_tick_rate(&self) -> u128 {
        self.material.spec_tick_rate()
    }

    pub fn id(&self) -> (r: u8)
        ensures
            r == self.id,
    {
        self.id
    }

    pub fn material(&self) -> (r: FluidMaterial)
        ensures
            r == self.material,
    {
        self.material
    }

    pub fn flow_rate(&self) -> (r: i32)
        ensures
            r == 5,
    {
        5
    }

    pub fn light_emittance(&self) -> (r: u8)
        ensures
            r == 1,
    {
        1
    }

    /// Ticks between two flow updates: 30 for lava, 5 for water.
    pub fn tick_rate(&self) -> (r: u128)
        ensures
            r == self.spec_tick_rate(),
    {
        self.material.tick_rate()
    }

    /// How much light the fluid blocks: 15 for lava, 3 for water.
    pub fn opacity(&self) -> (r: u8)
        ensures
            r == (match self.material {
                FluidMaterial::Lava => 15u8,
                FluidMaterial::Water => 3u8,
            }),
    {
        match self.material {
            FluidMaterial::Lava => 15,
            FluidMaterial::Water => 3,
        }
    }

    /// Whether the block id is of this fluid's material.
    pub fn is_same_material(&self, id: u8) -> (r: bool)
        ensures
            r == self.spec_same_material(id),
    {
        match self.material {
            FluidMaterial::Lava => is_lava(id),
            FluidMaterial::Water => is_water(id),
        }
    }

    pub fn item_stack_size(&self) -> (r: i8)
        ensures
            r == 1,
    {
        1
    }

    pub fn is_solid(&self) -> (r: bool)
        ensures
            !r,
    {
        false
    }

    pub fn can_place_over(&self) -> (r: bool)
        ensures
            r,
    {
        true
    }

    /// Whether fluid may replace the block at `p`: it is neither of this
    /// material nor lava, and does not stop flow.
    pub open spec fn can_displace(&self, m: Map<BlockPosition, BlockState>, reg: ItemRegistry, p: BlockPosition) -> bool {
        let id = id_at(m, p);
        !(self.spec_same_material(id) || spec_is_lava(id)) && !blocks_flow(m, reg, p)
    }

    /// The flow decay of the block at `p` in `world`, or -1 when it is not
    /// of this material.
    pub open spec fn flow_decay(&self, m: Map<BlockPosition, BlockState>, world: i32, p: BlockPosition) -> int {
        let q = at(p, world);
        if m.contains_key(q) && self.spec_same_material(m[q].b_type) {
            m[q].b_metadata as int
        } else {
            -1
        }
    }

    /// One step of the search for the smallest neighbouring flow decay:
    /// the smallest so far and the number of neighbouring sources.
    pub open spec fn smallest_step(
        &self,
        m: Map<BlockPosition, BlockState>,
        world: i32,
        p: BlockPosition,
        current: int,
        sources: int,
    ) -> (int, int) {
        let d = self.flow_decay(m, world, p);
        if d < 0 {
            (current, sources)
        } else {
            let d2 = if d >= 8 {
                0
            } else {
                d
            };
            (
                if current >= 0 && d2 >= current {
                    current
                } else {
                    d2
                },
                if d == 0 {
                    sources + 1
                } else {
                    sources
                },
            )
        }
    }

    /// Whether the block at `p` stops fluid.
    pub fn block_blocks_flow(&self, w: &FluidWorld, p: BlockPosition) -> (r: bool)
        ensures
            r == blocks_flow(w.blocks@, w.registry, p),
    {
        let id = w.block_id_at(p);
        if id == 0 {
            return false;
        }
        w.is_solid_block(p)
    }

    /// Whether this fluid may replace the block at `p`.
    pub fn liquid_can_displace_block(&self, w: &FluidWorld, p: BlockPosition) -> (r: bool)
        ensures
            r == self.can_displace(w.blocks@, w.registry, p),
    {
        let id = w.block_id_at(p);
        if self.is_same_material(id) || is_lava(id) {
            return false;
        }
        !self.block_blocks_flow(w, p)
    }

    /// The flow decay of the block at `p` in `world`, or -1 when it is not
    /// of this material.
    pub fn get_flow_decay(&self, w: &FluidWorld, world: i32, p: BlockPosition) -> (r: i32)
        ensures
            r == self.flow_decay(w.blocks@, world, p),
            -1 <= r <= 255,
    {
        if let Some(block) = w.block(p, world) {
            if self.is_same_material(block.b_type) {
                return block.b_metadata as i32;
            }
        }
        -1
    }

    /// Takes the flow decay at `p` into the smallest one found so far, and
    /// counts `p` in `sources` when it is a source. A falling block counts
    /// as decay 0.
    pub fn get_smallest_flow_decay(
        &self,
        w: &FluidWorld,
        world: i32,
        p: BlockPosition,
        current: i32,
        sources: &mut i32,
    ) -> (r: i32)
        requires
            *old(sources) < i32::MAX,
        ensures
            (r as int, *final(sources) as int) == self.smallest_step(
                w.blocks@,
                world,
                p,
                current as int,
                *old(sources) as int,
            ),
    {
        let mut new_flow_decay = self.get_flow_decay(w, world, p);
        if new_flow_decay < 0 {
            return current;
        }
        if new_flow_decay == 0 {
            *sources += 1;
        }
        if new_flow_decay >= 8 {
            new_flow_decay = 0;
        }
        if current >= 0 && new_flow_decay >= current {
            current
        } else {
            new_flow_decay
        }
    }
}

impl FluidBlock {
    /// Whether the block at `q` is a source of this fluid, its metadata
    /// read in `world`.
    pub open spec fn is_source_at(&self, m: Map<BlockPosition, BlockState>, world: i32, q: BlockPosition) -> bool {
        self.spec_same_material(id_at(m, q)) && meta_at(m, at(q, world)) == 0
    }

    /// The cost of flowing on from `p`, reached in `reps` steps from the
    /// direction `from`: the number of steps to the nearest place where the
    /// fluid can fall, or 1000 when there is none within four steps.
    pub open spec fn flow_cost(
        &self,
        m: Map<BlockPosition, BlockState>,
        reg: ItemRegistry,
        world: i32,
        p: BlockPosition,
        reps: int,
        from: int,
    ) -> int
        decreases 4 - reps, 5int,
    {
        self.flow_cost_from(m, reg, world, p, reps, from, 0, 1000)
    }

    /// `flow_cost`, from direction `k` on, with `current` the lowest cost
    /// found in the directions before `k`.
    pub open spec fn flow_cost_from(
        &self,
        m: Map<BlockPosition, BlockState>,
        reg: ItemRegistry,
        world: i32,
        p: BlockPosition,
        reps: int,
        from: int,
        k: int,
        current: int,
    ) -> int
        decreases 4 - reps, 4 - k,
    {
        if k >= 4 {
            current
        } else if skips(k, from) {
            self.flow_cost_from(m, reg, world, p, reps, from, k + 1, current)
        } else {
            let q = neighbor(p, k, p.world);
            if blocks_flow(m, reg, q) || self.is_source_at(m, world, q) {
                self.flow_cost_from(m, reg, world, p, reps, from, k + 1, current)
            } else if !blocks_flow(m, reg, below(q)) {
                reps
            } else if reps >= 4 {
                self.flow_cost_from(m, reg, world, p, reps, from, k + 1, current)
            } else {
                let c = self.flow_cost(m, reg, world, q, reps + 1, k);
                self.flow_cost_from(
                    m,
                    reg,
                    world,
                    p,
                    reps,
                    from,
                    k + 1,
                    if c < current {
                        c
                    } else {
                        current
                    },
                )
            }
        }
    }

    /// The cost of flowing one block in direction `l` from `p`: 1000 when
    /// that block stops flow or is a source, 0 when the fluid can fall
    /// there, else its `flow_cost`.
    pub open spec fn direction_cost(
        &self,
        m: Map<BlockPosition, BlockState>,
        reg: ItemRegistry,
        world: i32,
        p: BlockPosition,
        l: int,
    ) -> int {
        let q = neighbor(p, l, world);
        if blocks_flow(m, reg, q) || self.is_source_at(m, world, q) {
            1000
        } else if !blocks_flow(m, reg, below(q)) {
            0
        } else {
            self.flow_cost(m, reg, world, q, 1, l)
        }
    }

    /// The lowest of the four direction costs.
    pub open spec fn lowest_cost(
        &self,
        m: Map<BlockPosition, BlockState>,
        reg: ItemRegistry,
        world: i32,
        p: BlockPosition,
    ) -> int {
        let c0 = self.direction_cost(m, reg, world, p, 0);
        let c1 = self.direction_cost(m, reg, world, p, 1);
        let c2 = self.direction_cost(m, reg, world, p, 2);
        let c3 = self.direction_cost(m, reg, world, p, 3);
        let l1 = if c1 < c0 {
            c1
        } else {
            c0
        };
        let l2 = if c2 < l1 {
            c2
        } else {
            l1
        };
        if c3 < l2 {
            c3
        } else {
            l2
        }
    }

    /// For each of the four directions, whether flowing that way costs the
    /// least.
    pub open spec fn optimal(
        &self,
        m: Map<BlockPosition, BlockState>,
        reg: ItemRegistry,
        world: i32,
        p: BlockPosition,
    ) -> Seq<bool> {
        Seq::new(
            4,
            |l: int| self.direction_cost(m, reg, world, p, l) == self.lowest_cost(m, reg, world, p),
        )
    }

    /// The neighbour of `p` in direction `k`, in `world`.
    fn neighbor_of(p: BlockPosition, k: i32, world: i32) -> (r: BlockPosition)
        requires
            0 <= k < 4,
            flow_room(p, 1),
        ensures
            r == neighbor(p, k as int, world),
    {
        let mut x = p.x;
        let mut z = p.z;
        if k == 0 {
            x -= 1;
        }
        if k == 1 {
            x += 1;
        }
        if k == 2 {
            z -= 1;
        }
        if k == 3 {
            z += 1;
        }
        BlockPosition::new(x, p.y, z, world)
    }

    /// The cost of flowing on from `p`, reached in `reps` steps from the
    /// direction `from`.
    pub fn calculate_flow_cost(
        &self,
        w: &FluidWorld,
        world: i32,
        p: BlockPosition,
        reps: i32,
        from: i32,
    ) -> (r: i32)
        requires
            flow_room(p, 1),
            reps <= 4 ==> flow_room(p, 5 - reps),
        ensures
            r == self.flow_cost(w.blocks@, w.registry, world, p, reps as int, from as int),
        decreases 4 - reps,
    {
        let ghost m = w.blocks@;
        let ghost reg = w.registry;
        let mut current: i32 = 1000;
        let mut k: i32 = 0;
        while k < 4
            invariant
                0 <= k <= 4,
                m == w.blocks@,
                reg == w.registry,
                flow_room(p, 1),
                reps <= 4 ==> flow_room(p, 5 - reps),
                self.flow_cost(m, reg, world, p, reps as int, from as int) == self.flow_cost_from(
                    m,
                    reg,
                    world,
                    p,
                    reps as int,
                    from as int,
                    k as int,
                    current as int,
                ),
            decreases 4 - k,
        {
            if !((k == 0 && from == 1) || (k == 1 && from == 0) || (k == 2 && from == 3) || (k
                == 3 && from == 2)) {
                let q = Self::neighbor_of(p, k, p.world);
                if self.block_blocks_flow(w, q) || self.is_same_material(w.block_id_at(q))
                    && w.block_meta_at(q, world) == 0 {
                } else {
                    let q_below = q.offset(0, -1, 0);
                    if !self.block_blocks_flow(w, q_below) {
                        return reps;
                    }
                    if reps < 4 {
                        let c = self.calculate_flow_cost(w, world, q, reps + 1, k);
                        if c < current {
                            current = c;
                        }
                    }
                }
            }
            k += 1;
        }
        current
    }

    fn direction_cost_of(&self, w: &FluidWorld, world: i32, p: BlockPosition, l: i32) -> (r: i32)
        requires
            0 <= l < 4,
            flow_room(p, 5),
        ensures
            r == self.direction_cost(w.blocks@, w.registry, world, p, l as int),
    {
        let q = Self::neighbor_of(p, l, world);
        if self.block_blocks_flow(w, q) || self.is_same_material(w.block_id_at(q))
            && w.block_meta_at(q, world) == 0 {
            return 1000;
        }
        if !self.block_blocks_flow(w, q.offset(0, -1, 0)) {
            0
        } else {
            self.calculate_flow_cost(w, world, q, 1, l)
        }
    }

    /// For each of the four horizontal directions (west, east, north,
    /// south), whether flowing that way reaches a place to fall soonest.
    pub fn get_optimal_flow_directions(&self, w: &FluidWorld, world: i32, p: BlockPosition) -> (r: [bool; 4])
        requires
            flow_room(p, 5),
        ensures
            r@ == self.optimal(w.blocks@, w.registry, world, p),
    {
        let c0 = self.direction_cost_of(w, world, p, 0);
        let c1 = self.direction_cost_of(w, world, p, 1);
        let c2 = self.direction_cost_of(w, world, p, 2);
        let c3 = self.direction_cost_of(w, world, p, 3);
        let mut lowest = c0;
        if c1 < lowest {
            lowest = c1;
        }
        if c2 < lowest {
            lowest = c2;
        }
        if c3 < lowest {
            lowest = c3;
        }
        let r = [c0 == lowest, c1 == lowest, c2 == lowest, c3 == lowest];
        assert(r@ =~= self.optimal(w.blocks@, w.registry, world, p));
        r
    }
}

impl FluidBlock {
    /// The model after `update_flow`: the block at `p` in `world`, if
    /// known, takes the next block type (moving fluid becomes still).
    pub open spec fn update_flow_model(&self, w: FluidModel, world: i32, p: BlockPosition) -> FluidModel {
        let q = at(p, world);
        if w.0.contains_key(q) {
            let b = w.0[q];
            set_model(
                w,
                q,
                BlockState { b_type: (b.b_type + 1) as u8, ..b },
                SetBlockFlags(false, false, false),
            )
        } else {
            w
        }
    }

    /// Whether `update_flow` at `p` in `world` keeps the block type in `u8`.
    pub open spec fn update_flow_defined(m: Map<BlockPosition, BlockState>, world: i32, p: BlockPosition) -> bool {
        m.contains_key(at(p, world)) ==> m[at(p, world)].b_type < 255
    }

    /// Turns the block at `p` in `world` into the next block type: moving
    /// fluid becomes still fluid.
    pub fn update_flow(&self, w: &mut FluidWorld, world: i32, p: BlockPosition)
        requires
            Self::update_flow_defined(old(w).blocks@, world, p),
        ensures
            final(w).model() == self.update_flow_model(old(w).model(), world, p),
            final(w).registry == old(w).registry,
    {
        if let Some(blockstate) = w.block(p, world) {
            let mut blockstate = blockstate;
            blockstate.b_type += 1;
            w.set_block(p, blockstate, world, SetBlockFlags(false, false, false));
        }
    }

    /// The model after `flow_into_block`: when the fluid may replace the
    /// block at `p`, that block drops its items (if it is a registered
    /// block other than air) and becomes this fluid with the given decay.
    pub open spec fn flow_into_model(
        &self,
        w: FluidModel,
        reg: ItemRegistry,
        world: i32,
        p: BlockPosition,
        decay: i32,
    ) -> FluidModel {
        if self.can_displace(w.0, reg, p) {
            let v = id_at(w.0, p);
            let w1 = if v > 0 && reg.spec_get_block(v) is Some {
                event_model(
                    w,
                    FluidEvent::DropItems { position: p, state: BlockState::spec_new(v, meta_at(w.0, p)) },
                )
            } else {
                w
            };
            set_model(
                w1,
                at(p, world),
                BlockState::spec_new(self.id, decay as u8),
                SetBlockFlags(true, false, false),
            )
        } else {
            w
        }
    }

    /// Flows into the block at `p` with the given decay, washing away what
    /// was there.
    pub fn flow_into_block(&self, w: &mut FluidWorld, world: i32, p: BlockPosition, decay: i32)
        ensures
            final(w).model() == self.flow_into_model(old(w).model(), old(w).registry, world, p, decay),
            final(w).registry == old(w).registry,
    {
        if self.liquid_can_displace_block(w, p) {
            let v = w.block_id_at(p);
            let meta = w.block_meta_at(p, p.world);
            proof {
                assert(at(p, p.world) == p);
            }
            if v > 0 {
                if let Some(_kind) = w.registry.get_block(v) {
                    w.push_event(FluidEvent::DropItems { position: p, state: BlockState::new(v, meta) });
                }
            }
            #[verifier::truncate]
            let d: u8 = decay as u8;
            w.set_block(p, BlockState::new(self.id, d), world, SetBlockFlags(true, false, false));
        }
    }
}

impl FluidBlock {
    /// The flow decay that a flowing (non-source) block takes from its
    /// surroundings, before lava's random hesitation: one step more than
    /// the thinnest horizontal neighbour (or gone, without one or past 7);
    /// falling under fluid from above; and, for water between two or more
    /// sources over solid ground or a water source, a new source.
    pub open spec fn decay_from_neighbors(
        &self,
        m: Map<BlockPosition, BlockState>,
        reg: ItemRegistry,
        world: i32,
        p: BlockPosition,
    ) -> int {
        let s1 = self.smallest_step(m, world, p.spec_offset(-1, 0, 0), -100, 0);
        let s2 = self.smallest_step(m, world, p.spec_offset(1, 0, 0), s1.0, s1.1);
        let s3 = self.smallest_step(m, world, p.spec_offset(0, 0, -1), s2.0, s2.1);
        let s4 = self.smallest_step(m, world, p.spec_offset(0, 0, 1), s3.0, s3.1);
        let a = if s4.0 + self.spec_flow_step() >= 8 || s4.0 < 0 {
            -1
        } else {
            s4.0 + self.spec_flow_step()
        };
        let up = self.flow_decay(m, world, above(p));
        let b = if up >= 0 {
            if up >= 8 {
                up
            } else {
                8
            }
        } else {
            a
        };
        if s4.1 >= 2 && self.material == FluidMaterial::Water {
            if solid_at(m, reg, below(p)) {
                0
            } else if spec_is_water(id_at(m, below(p))) && meta_at(m, at(below(p), world)) == 0 {
                0
            } else {
                b
            }
        } else {
            b
        }
    }

    /// Whether lava at decay `our` holds back from spreading thinner, which
    /// it does unless the roll is 0.
    pub open spec fn lava_hesitates(&self, our: int, decay: int) -> bool {
        self.material == FluidMaterial::Lava && our < 8 && decay < 8 && decay > our
    }

    /// The first part of a tick: the block at `p` takes its new decay, or
    /// becomes still. Returns the model and the decay of `p` afterwards.
    pub open spec fn decay_phase(
        &self,
        w: FluidModel,
        reg: ItemRegistry,
        world: i32,
        p: BlockPosition,
        roll: u32,
    ) -> (FluidModel, int) {
        let our = self.flow_decay(w.0, world, p);
        if our > 0 {
            let c = self.decay_from_neighbors(w.0, reg, world, p);
            let held = self.lava_hesitates(our, c) && roll != 0;
            let nd = if held {
                our
            } else {
                c
            };
            if nd != our {
                let f = SetBlockFlags(true, false, false);
                if nd < 0 {
                    (set_model(w, at(p, world), BlockState::spec_new(0, 0), f), nd)
                } else {
                    let st = BlockState::spec_new(self.id, nd as u8);
                    (
                        event_model(
                            set_model(set_model(w, at(p, world), st, f), at(p, world), st, f),
                            FluidEvent::ScheduleTick {
                                position: p,
                                world,
                                delay: self.spec_tick_rate(),
                                id: self.id,
                            },
                        ),
                        nd,
                    )
                }
            } else if !held {
                (self.update_flow_model(w, world, p), our)
            } else {
                (w, our)
            }
        } else {
            (self.update_flow_model(w, world, p), our)
        }
    }

    /// The second part of a tick: with decay `our` at `p`, the fluid falls
    /// into the block below when it can, else spreads sideways in the
    /// directions that lead soonest to a fall.
    pub open spec fn spread_phase(
        &self,
        w: FluidModel,
        reg: ItemRegistry,
        world: i32,
        p: BlockPosition,
        our: int,
    ) -> FluidModel {
        let b = below(p);
        if self.can_displace(w.0, reg, b) {
            set_model(
                w,
                at(b, world),
                BlockState::spec_new(
                    self.id,
                    if our >= 8 {
                        our as u8
                    } else {
                        8
                    },
                ),
                SetBlockFlags(true, false, false),
            )
        } else if our >= 0 && (our == 0 || blocks_flow(w.0, reg, b)) {
            let dirs = self.optimal(w.0, reg, world, p);
            let nd = if our >= 8 {
                1
            } else {
                our + self.spec_flow_step()
            };
            if nd >= 8 {
                w
            } else {
                let w1 = if dirs[0] {
                    self.flow_into_model(w, reg, world, p.spec_offset(-1, 0, 0), nd as i32)
                } else {
                    w
                };
                let w2 = if dirs[1] {
                    self.flow_into_model(w1, reg, world, p.spec_offset(1, 0, 0), nd as i32)
                } else {
                    w1
                };
                let w3 = if dirs[2] {
                    self.flow_into_model(w2, reg, world, p.spec_offset(0, 0, -1), nd as i32)
                } else {
                    w2
                };
                if dirs[3] {
                    self.flow_into_model(w3, reg, world, p.spec_offset(0, 0, 1), nd as i32)
                } else {
                    w3
                }
            }
        } else {
            w
        }
    }

    /// The model after a tick of the fluid block `state` at `p` in `world`,
    /// with `roll` the random number that lava draws.
    pub open spec fn spec_tick(
        &self,
        w: FluidModel,
        reg: ItemRegistry,
        world: i32,
        state: BlockState,
        p: BlockPosition,
        roll: u32,
    ) -> FluidModel {
        if !self.spec_same_material(state.b_type) {
            w
        } else {
            let (w1, our) = self.decay_phase(w, reg, world, p, roll);
            self.spread_phase(w1, reg, world, p, our)
        }
    }

    /// The inputs on which a tick stays within the integer types.
    pub open spec fn tick_defined(
        &self,
        m: Map<BlockPosition, BlockState>,
        world: i32,
        state: BlockState,
        p: BlockPosition,
    ) -> bool {
        self.spec_same_material(state.b_type) ==> flow_room(p, 5) && Self::update_flow_defined(
            m,
            world,
            p,
        )
    }

    fn neighbor_decay(&self, w: &FluidWorld, world: i32, p: BlockPosition) -> (r: i32)
        requires
            flow_room(p, 1),
        ensures
            r == self.decay_from_neighbors(w.blocks@, w.registry, world, p),
            -1 <= r <= 255,
    {
        let mut smallest: i32 = -100;
        let mut sources: i32 = 0;
        smallest = self.get_smallest_flow_decay(w, world, p.offset(-1, 0, 0), smallest, &mut sources);
        smallest = self.get_smallest_flow_decay(w, world, p.offset(1, 0, 0), smallest, &mut sources);
        smallest = self.get_smallest_flow_decay(w, world, p.offset(0, 0, -1), smallest, &mut sources);
        smallest = self.get_smallest_flow_decay(w, world, p.offset(0, 0, 1), smallest, &mut sources);
        let step: i32 = if self.material == FluidMaterial::Lava {
            2
        } else {
            1
        };
        let mut decay = smallest + step;
        if decay >= 8 || smallest < 0 {
            decay = -1;
        }
        if self.get_flow_decay(w, world, p.offset(0, 1, 0)) >= 0 {
            let up = self.get_flow_decay(w, world, p.offset(0, 1, 0));
            if up >= 8 {
                decay = up;
            } else {
                decay = 8;
            }
        }
        if sources >= 2 && self.material == FluidMaterial::Water {
            let b = p.offset(0, -1, 0);
            if w.is_solid_block(b) {
                decay = 0;
            } else if is_water(w.block_id_at(b)) && w.block_meta_at(b, world) == 0 {
                decay = 0;
            }
        }
        decay
    }
}

/// `rand::thread_rng().gen_range(0..4)`: a number below 4, drawn at random.
#[verifier::external_body]
fn random_below_four() -> (r: u32)
    ensures
        r < 4,
{
    rand::thread_rng().gen_range(0..4u32)
}

impl FluidBlock {
    fn spread(&self, w: &mut FluidWorld, world: i32, p: BlockPosition, our: i32)
        requires
            flow_room(p, 5),
            -1 <= our <= 255,
        ensures
            final(w).model() == self.spread_phase(old(w).model(), old(w).registry, world, p, our as int),
            final(w).registry == old(w).registry,
    {
        let b = p.offset(0, -1, 0);
        if self.liquid_can_displace_block(w, b) {
            if our >= 8 {
                w.set_block(b, BlockState::new(self.id, our as u8), world, SetBlockFlags(true, false, false));
            } else {
                w.set_block(b, BlockState::new(self.id, 8), world, SetBlockFlags(true, false, false));
            }
        } else if our >= 0 && (our == 0 || self.block_blocks_flow(w, b)) {
            let dirs = self.get_optimal_flow_directions(w, world, p);
            let step: i32 = if self.material == FluidMaterial::Lava {
                2
            } else {
                1
            };
            let mut decay_here = our + step;
            if our >= 8 {
                decay_here = 1;
            }
            if decay_here >= 8 {
                return;
            }
            if dirs[0] {
                self.flow_into_block(w, world, p.offset(-1, 0, 0), decay_here);
            }
            if dirs[1] {
                self.flow_into_block(w, world, p.offset(1, 0, 0), decay_here);
            }
            if dirs[2] {
                self.flow_into_block(w, world, p.offset(0, 0, -1), decay_here);
            }
            if dirs[3] {
                self.flow_into_block(w, world, p.offset(0, 0, 1), decay_here);
            }
        }
    }

    /// Ticks the fluid block `state` at `p` in `world`, with `roll` the
    /// random number below 4 that lava draws to decide whether to hold back.
    pub fn tick_with_roll(
        &self,
        w: &mut FluidWorld,
        world: i32,
        state: BlockState,
        p: BlockPosition,
        roll: u32,
    )
        requires
            self.tick_defined(old(w).blocks@, world, state, p),
        ensures
            final(w).model() == self.spec_tick(old(w).model(), old(w).registry, world, state, p, roll),
            final(w).registry == old(w).registry,
    {
        if !self.is_same_material(state.b_type) {
            return;
        }
        let mut our = self.get_flow_decay(w, world, p);
        let mut flag = true;
        if our > 0 {
            let mut decay = self.neighbor_decay(w, world, p);
            if self.material == FluidMaterial::Lava && our < 8 && decay < 8 && decay > our && roll
                != 0 {
                decay = our;
                flag = false;
            }
            if decay != our {
                our = decay;
                if our < 0 {
                    w.set_block(p, BlockState::air(), world, SetBlockFlags(true, false, false));
                } else {
                    w.set_block(
                        p,
                        BlockState::new(self.id, our as u8),
                        world,
                        SetBlockFlags(true, false, false),
                    );
                    w.set_block(
                        p,
                        BlockState::new(self.id, our as u8),
                        world,
                        SetBlockFlags(true, false, false),
                    );
                    let delay = self.tick_rate();
                    w.push_event(FluidEvent::ScheduleTick { position: p, world, delay, id: self.id });
                }
            } else if flag {
                self.update_flow(w, world, p);
            }
        } else {
            self.update_flow(w, world, p);
        }
        self.spread(w, world, p, our);
    }

    /// Whether a tick of `state` at `p` draws a random number: only lava
    /// that would spread thinner does.
    pub open spec fn draws_roll(
        &self,
        m: Map<BlockPosition, BlockState>,
        reg: ItemRegistry,
        world: i32,
        state: BlockState,
        p: BlockPosition,
    ) -> bool {
        let our = self.flow_decay(m, world, p);
        &&& self.spec_same_material(state.b_type)
        &&& our > 0
        &&& self.lava_hesitates(our, self.decay_from_neighbors(m, reg, world, p))
    }

    /// Ticks the fluid block `state` at `p` in `world`. Lava that would
    /// spread thinner holds back three times in four, at random.
    pub fn tick(&self, w: &mut FluidWorld, world: i32, state: BlockState, p: BlockPosition)
        requires
            self.tick_defined(old(w).blocks@, world, state, p),
        ensures
            exists|roll: u32|
                roll < 4 && final(w).model() == #[trigger] self.spec_tick(
                    old(w).model(),
                    old(w).registry,
                    world,
                    state,
                    p,
                    roll,
                ),
            !self.draws_roll(old(w).blocks@, old(w).registry, world, state, p) ==> final(w).model()
                == self.spec_tick(old(w).model(), old(w).registry, world, state, p, 0),
            final(w).registry == old(w).registry,
    {
        let mut roll: u32 = 0;
        if self.is_same_material(state.b_type) {
            let our = self.get_flow_decay(w, world, p);
            if our > 0 && self.material == FluidMaterial::Lava && our < 8 {
                let decay = self.neighbor_decay(w, world, p);
                if decay < 8 && decay > our {
                    roll = random_below_four();
                }
            }
        }
        self.tick_with_roll(w, world, state, p, roll);
    }
}

/// Whether a block next to `p`, across any of its six faces, is water.
pub open spec fn touches_water(m: Map<BlockPosition, BlockState>, p: BlockPosition) -> bool {
    exists|i: int|
        0 <= i < Face::spec_all_faces().len() && spec_is_water(
            id_at(m, #[trigger] Face::spec_all_faces()[i].spec_offset(p)),
        )
}

impl FluidMaterial {
    pub open spec fn spec_tick_rate(&self) -> u128 {
        match self {
            FluidMaterial::Lava => 30,
            FluidMaterial::Water => 5,
        }
    }

    /// Ticks between two flow updates: 30 for lava, 5 for water.
    pub fn tick_rate(&self) -> (r: u128)
        ensures
            r == self.spec_tick_rate(),
    {
        match self {
            FluidMaterial::Lava => 30,
            FluidMaterial::Water => 5,
        }
    }

    pub open spec fn spec_matches(&self, id: u8) -> bool {
        match self {
            FluidMaterial::Lava => spec_is_lava(id),
            FluidMaterial::Water => spec_is_water(id),
        }
    }

    /// The model after `check_for_harden` at `p`: lava that touches water
    /// turns into obsidian when it is a source, else into cobblestone;
    /// water never hardens.
    pub open spec fn harden_model(&self, w: FluidModel, p: BlockPosition) -> FluidModel {
        if self.spec_matches(id_at(w.0, p)) && *self == FluidMaterial::Lava && touches_water(w.0, p) {
            let st = if meta_at(w.0, p) == 0 {
                BlockState::spec_new(49, 0)
            } else {
                BlockState::spec_new(4, 0)
            };
            event_model(
                event_model(
                    set_model(w, p, st, SetBlockFlags(false, false, true)),
                    FluidEvent::SetNextTick { position: p, state: st },
                ),
                FluidEvent::Extinguish { position: p },
            )
        } else {
            w
        }
    }

    /// Hardens lava at `p` that touches water: a source becomes obsidian,
    /// flowing lava cobblestone. The block is set again on the next tick and
    /// the extinguish sound plays.
    pub fn check_for_harden(&self, w: &mut FluidWorld, world: i32, p: BlockPosition)
        requires
            flow_room(p, 1),
        ensures
            final(w).model() == self.harden_model(old(w).model(), p),
            final(w).registry == old(w).registry,
    {
        let id = w.block_id_at(p);
        let same = match self {
            FluidMaterial::Lava => is_lava(id),
            FluidMaterial::Water => is_water(id),
        };
        if !same {
            return;
        }
        if *self == FluidMaterial::Lava {
            let faces = Face::all_faces();
            let mut flag = false;
            let mut i: usize = 0;
            while i < faces.len()
                invariant_except_break
                    !flag,
                invariant
                    faces@ == Face::spec_all_faces(),
                    i <= faces@.len(),
                    flow_room(p, 1),
                    forall|j: int|
                        0 <= j < i ==> !spec_is_water(
                            id_at(w.blocks@, #[trigger] Face::spec_all_faces()[j].spec_offset(p)),
                        ),
                ensures
                    flag ==> i < faces@.len() && spec_is_water(
                        id_at(w.blocks@, Face::spec_all_faces()[i as int].spec_offset(p)),
                    ),
                    !flag ==> i == faces@.len(),
                decreases faces@.len() - i,
            {
                let pos = faces[i].offset(p);
                if is_water(w.block_id_at(pos)) {
                    flag = true;
                    break;
                }
                i += 1;
            }
            assert(flag == touches_water(w.blocks@, p));
            if flag {
                let meta = w.block_meta_at(p, p.world);
                proof {
                    assert(at(p, p.world) == p);
                }
                let st = if meta == 0 {
                    BlockState::new(49, 0)
                } else {
                    BlockState::new(4, 0)
                };
                w.set_block(p, st, p.world, SetBlockFlags(false, false, true));
                w.push_event(FluidEvent::SetNextTick { position: p, state: st });
                w.push_event(FluidEvent::Extinguish { position: p });
            }
        }
    }
}

impl FluidBlock {
    /// The model after `added` at `p` in `world`: lava hardens if it
    /// touches water, and if the block is still this fluid a tick is
    /// scheduled.
    pub open spec fn added_model(&self, w: FluidModel, world: i32, p: BlockPosition) -> FluidModel {
        let w1 = self.material.harden_model(w, p);
        if id_at(w1.0, p) == self.id {
            event_model(
                w1,
                FluidEvent::ScheduleTick {
                    position: p,
                    world,
                    delay: self.spec_tick_rate(),
                    id: self.id,
                },
            )
        } else {
            w1
        }
    }

    /// Called when the fluid block is placed at `p`.
    pub fn added(&self, w: &mut FluidWorld, world: i32, p: BlockPosition, state: BlockState)
        requires
            flow_room(p, 1),
        ensures
            final(w).model() == self.added_model(old(w).model(), world, p),
            final(w).registry == old(w).registry,
    {
        self.material.check_for_harden(w, world, p);
        if w.block_id_at(p) == self.id {
            let delay = self.tick_rate();
            w.push_event(FluidEvent::ScheduleTick { position: p, world, delay, id: self.id });
        }
    }

    /// Called when a block next to `p` changes: lava may harden.
    pub fn neighbor_update(
        &self,
        w: &mut FluidWorld,
        world: i32,
        p: BlockPosition,
        state: BlockState,
        offset: Face,
        neighbor_state: BlockState,
    )
        requires
            flow_room(p, 1),
        ensures
            final(w).model() == self.material.harden_model(old(w).model(), p),
            final(w).registry == old(w).registry,
    {
        self.material.check_for_harden(w, world, p);
    }

    /// Called when the scheduled tick comes: the fluid flows.
    pub fn upd_tick(&self, w: &mut FluidWorld, world: i32, state: BlockState, p: BlockPosition)
        requires
            self.tick_defined(old(w).blocks@, world, state, p),
        ensures
            exists|roll: u32|
                roll < 4 && final(w).model() == #[trigger] self.spec_tick(
                    old(w).model(),
                    old(w).registry,
                    world,
                    state,
                    p,
                    roll,
                ),
            final(w).registry == old(w).registry,
    {
        self.tick(w, world, state, p);
    }

    /// Fluid can be walked and swum through.
    pub fn passable(&self) -> (r: bool)
        ensures
            r,
    {
        true
    }
}

/// The model after a still fluid block at `p` in `world` is told that its
/// neighbour across `offset` changed: unless `offset` is `Invalid`, a still
/// block with id `still_id` becomes moving again (one id lower) and is
/// scheduled to tick; then lava may harden.
pub open spec fn still_neighbor_model(
    material: FluidMaterial,
    still_id: u8,
    w: FluidModel,
    world: i32,
    p: BlockPosition,
    state: BlockState,
    offset: Face,
) -> FluidModel {
    let w1 = if offset != Face::Invalid && id_at(w.0, p) == still_id {
        let st = BlockState { b_type: (state.b_type - 1) as u8, ..state };
        event_model(
            set_model(w, at(p, world), st, SetBlockFlags(false, false, true)),
            FluidEvent::ScheduleTick {
                position: p,
                world,
                delay: material.spec_tick_rate(),
                id: st.b_type,
            },
        )
    } else {
        w
    };
    material.harden_model(w1, p)
}

/// Makes a still fluid block moving again when a neighbour changes.
pub fn still_neighbor_update(
    material: FluidMaterial,
    still_id: u8,
    w: &mut FluidWorld,
    world: i32,
    p: BlockPosition,
    state: BlockState,
    offset: Face,
)
    requires
        flow_room(p, 1),
        offset != Face::Invalid && id_at(old(w).blocks@, p) == still_id ==> state.b_type > 0,
    ensures
        final(w).model() == still_neighbor_model(material, still_id, old(w).model(), world, p, state, offset),
        final(w).registry == old(w).registry,
{
    let valid = match offset {
        Face::Invalid => false,
        _ => true,
    };
    if valid {
        if w.block_id_at(p) == still_id {
            let mut state = state;
            state.b_type -= 1;
            let id = state.b_type;
            w.set_block(p, state, world, SetBlockFlags(false, false, true));
            let delay = material.tick_rate();
            w.push_event(FluidEvent::ScheduleTick { position: p, world, delay, id });
        }
    }
    material.check_for_harden(w, world, p);
}

/// Whether `later` keeps the block at `q` that `earlier` has, and keeps
/// the events of `earlier` as its first events.
pub open spec fn keeps(earlier: FluidModel, later: FluidModel, q: BlockPosition) -> bool {
    &&& later.0.contains_key(q) == earlier.0.contains_key(q)
    &&& earlier.0.contains_key(q) ==> later.0[q] == earlier.0[q]
    &&& earlier.1.len() <= later.1.len()
    &&& forall|i: int| 0 <= i < earlier.1.len() ==> later.1[i] == earlier.1[i]
}

/// The positions that a tick at `p` in `world` may change: `p` itself,
/// the block below, and the four horizontal neighbours, in `world`.
pub open spec fn near(p: BlockPosition, world: i32, q: BlockPosition) -> bool {
    ||| q == at(p, world)
    ||| q == at(below(p), world)
    ||| q == at(p.spec_offset(-1, 0, 0), world)
    ||| q == at(p.spec_offset(1, 0, 0), world)
    ||| q == at(p.spec_offset(0, 0, -1), world)
    ||| q == at(p.spec_offset(0, 0, 1), world)
}

proof fn lemma_keeps_trans(a: FluidModel, b: FluidModel, c: FluidModel, q: BlockPosition)
    requires
        keeps(a, b, q),
        keeps(b, c, q),
    ensures
        keeps(a, c, q),
{
}

proof fn lemma_flow_into_keeps(
    f: FluidBlock,
    w: FluidModel,
    reg: ItemRegistry,
    world: i32,
    pp: BlockPosition,
    d: i32,
    q: BlockPosition,
)
    requires
        q != at(pp, world),
    ensures
        keeps(w, f.flow_into_model(w, reg, world, pp, d), q),
{
}

/// A tick changes no block but the one ticked, the one below it and its
/// four horizontal neighbours, and it only adds events.
pub proof fn law_tick_is_local(
    f: FluidBlock,
    w: FluidModel,
    reg: ItemRegistry,
    world: i32,
    state: BlockState,
    p: BlockPosition,
    roll: u32,
    q: BlockPosition,
)
    requires
        !near(p, world, q),
    ensures
        keeps(w, f.spec_tick(w, reg, world, state, p, roll), q),
{
    if f.spec_same_material(state.b_type) {
        let (w1, our) = f.decay_phase(w, reg, world, p, roll);
        assert(keeps(w, w1, q));
        let b = below(p);
        if f.can_displace(w1.0, reg, b) {
        } else if our >= 0 && (our == 0 || blocks_flow(w1.0, reg, b)) {
            let dirs = f.optimal(w1.0, reg, world, p);
            let nd = if our >= 8 {
                1
            } else {
                our + f.spec_flow_step()
            };
            if nd < 8 {
                let w2 = if dirs[0] {
                    f.flow_into_model(w1, reg, world, p.spec_offset(-1, 0, 0), nd as i32)
                } else {
                    w1
                };
                let w3 = if dirs[1] {
                    f.flow_into_model(w2, reg, world, p.spec_offset(1, 0, 0), nd as i32)
                } else {
                    w2
                };
                let w4 = if dirs[2] {
                    f.flow_into_model(w3, reg, world, p.spec_offset(0, 0, -1), nd as i32)
                } else {
                    w3
                };
                let w5 = if dirs[3] {
                    f.flow_into_model(w4, reg, world, p.spec_offset(0, 0, 1), nd as i32)
                } else {
                    w4
                };
                lemma_flow_into_keeps(f, w1, reg, world, p.spec_offset(-1, 0, 0), nd as i32, q);
                lemma_flow_into_keeps(f, w2, reg, world, p.spec_offset(1, 0, 0), nd as i32, q);
                lemma_flow_into_keeps(f, w3, reg, world, p.spec_offset(0, 0, -1), nd as i32, q);
                lemma_flow_into_keeps(f, w4, reg, world, p.spec_offset(0, 0, 1), nd as i32, q);
                lemma_keeps_trans(w, w1, w2, q);
                lemma_keeps_trans(w, w2, w3, q);
                lemma_keeps_trans(w, w3, w4, q);
                lemma_keeps_trans(w, w4, w5, q);
            }
        }
    }
}

/// A tick of a block of another material changes nothing.
pub proof fn law_tick_ignores_other_material(
    f: FluidBlock,
    w: FluidModel,
    reg: ItemRegistry,
    world: i32,
    state: BlockState,
    p: BlockPosition,
    roll: u32,
)
    requires
        !f.spec_same_material(state.b_type),
    ensures
        f.spec_tick(w, reg, world, state, p, roll) == w,
{
}

/// Water never hardens.
pub proof fn law_water_never_hardens(w: FluidModel, p: BlockPosition)
    ensures
        FluidMaterial::Water.harden_model(w, p) == w,
{
}

/// Lava that touches water hardens: a source into obsidian, flowing lava
/// into cobblestone.
pub proof fn law_lava_hardens_by_water(w: FluidModel, p: BlockPosition)
    requires
        spec_is_lava(id_at(w.0, p)),
        touches_water(w.0, p),
    ensures
        FluidMaterial::Lava.harden_model(w, p).0[p] == (if meta_at(w.0, p) == 0 {
            BlockState::spec_new(49, 0)
        } else {
            BlockState::spec_new(4, 0)
        }),
{
}

/// At least one of the four directions is always optimal.
pub proof fn law_some_direction_optimal(
    f: FluidBlock,
    m: Map<BlockPosition, BlockState>,
    reg: ItemRegistry,
    world: i32,
    p: BlockPosition,
)
    ensures
        f.optimal(m, reg, world, p).len() == 4,
        f.optimal(m, reg, world, p)[0] || f.optimal(m, reg, world, p)[1] || f.optimal(
            m,
            reg,
            world,
            p,
        )[2] || f.optimal(m, reg, world, p)[3],
{
    let o = f.optimal(m, reg, world, p);
    assert(o[0] == (f.direction_cost(m, reg, world, p, 0) == f.lowest_cost(m, reg, world, p)));
    assert(o[1] == (f.direction_cost(m, reg, world, p, 1) == f.lowest_cost(m, reg, world, p)));
    assert(o[2] == (f.direction_cost(m, reg, world, p, 2) == f.lowest_cost(m, reg, world, p)));
    assert(o[3] == (f.direction_cost(m, reg, world, p, 3) == f.lowest_cost(m, reg, world, p)));
}

proof fn lemma_flow_cost_from_range(
    f: FluidBlock,
    m: Map<BlockPosition, BlockState>,
    reg: ItemRegistry,
    world: i32,
    p: BlockPosition,
    reps: int,
    from: int,
    k: int,
    current: int,
)
    requires
        1 <= reps <= 4,
        0 <= k,
        current == 1000 || reps <= current <= 4,
    ensures
        f.flow_cost_from(m, reg, world, p, reps, from, k, current) == 1000 || reps
            <= f.flow_cost_from(m, reg, world, p, reps, from, k, current) <= 4,
    decreases 4 - reps, 4 - k,
{
    if k < 4 {
        if skips(k, from) {
            lemma_flow_cost_from_range(f, m, reg, world, p, reps, from, k + 1, current);
        } else {
            let q = neighbor(p, k, p.world);
            if blocks_flow(m, reg, q) || f.is_source_at(m, world, q) {
                lemma_flow_cost_from_range(f, m, reg, world, p, reps, from, k + 1, current);
            } else if !blocks_flow(m, reg, below(q)) {
            } else if reps >= 4 {
                lemma_flow_cost_from_range(f, m, reg, world, p, reps, from, k + 1, current);
            } else {
                lemma_flow_cost_from_range(f, m, reg, world, q, reps + 1, k, 0, 1000);
                let c = f.flow_cost(m, reg, world, q, reps + 1, k);
                let next = if c < current {
                    c
                } else {
                    current
                };
                lemma_flow_cost_from_range(f, m, reg, world, p, reps, from, k + 1, next);
            }
        }
    }
}

/// The cost of flowing on, from the first step on, is either 1000 (no place
/// to fall within reach) or a number of steps between the steps already
/// taken and four.
pub proof fn law_flow_cost_range(
    f: FluidBlock,
    m: Map<BlockPosition, BlockState>,
    reg: ItemRegistry,
    world: i32,
    p: BlockPosition,
    reps: int,
    from: int,
)
    requires
        1 <= reps <= 4,
    ensures
        f.flow_cost(m, reg, world, p, reps, from) == 1000 || reps <= f.flow_cost(
            m,
            reg,
            world,
            p,
            reps,
            from,
        ) <= 4,
{
    lemma_flow_cost_from_range(f, m, reg, world, p, reps, from, 0, 1000);
}


/// Flowing into `q` changes the block map at no other position.
proof fn lemma_flow_into_elsewhere(
    f: FluidBlock,
    w: FluidModel,
    reg: ItemRegistry,
    world: i32,
    q: BlockPosition,
    d: i32,
    r: BlockPosition,
)
    requires
        r != at(q, world),
    ensures
        f.flow_into_model(w, reg, world, q, d).0.contains_key(r) == w.0.contains_key(r),
        w.0.contains_key(r) ==> f.flow_into_model(w, reg, world, q, d).0[r] == w.0[r],
        id_at(f.flow_into_model(w, reg, world, q, d).0, r) == id_at(w.0, r),
        blocks_flow(f.flow_into_model(w, reg, world, q, d).0, reg, r) == blocks_flow(w.0, reg, r),
        f.can_displace(f.flow_into_model(w, reg, world, q, d).0, reg, r) == f.can_displace(w.0, reg, r),
{
}

/// Flowing into `q`, where the fluid may replace the block, leaves the
/// fluid there with the given decay.
proof fn lemma_flow_into_here(f: FluidBlock, w: FluidModel, reg: ItemRegistry, world: i32, q: BlockPosition, d: i32)
    requires
        f.can_displace(w.0, reg, q),
    ensures
        f.flow_into_model(w, reg, world, q, d).0[at(q, world)] == BlockState::spec_new(f.id, d as u8),
{
}

/// Fluid that is falling (decay 8 or more) and lands on a block that stops
/// flow spreads sideways as thin as it goes: each horizontal neighbour in
/// a direction that leads soonest to a fall, and that the fluid may
/// replace, becomes this fluid with decay 1, whatever the falling decay.
pub proof fn law_landing_fluid_spreads_with_decay_one(
    f: FluidBlock,
    w: FluidModel,
    reg: ItemRegistry,
    world: i32,
    p: BlockPosition,
    our: int,
    k: int,
)
    requires
        p.world == world,
        flow_room(p, 1),
        our >= 8,
        blocks_flow(w.0, reg, below(p)),
        0 <= k < 4,
        f.optimal(w.0, reg, world, p)[k],
        f.can_displace(w.0, reg, neighbor(p, k, world)),
    ensures
        f.spread_phase(w, reg, world, p, our).0[neighbor(p, k, world)] == BlockState::spec_new(f.id, 1),
{
    let dirs = f.optimal(w.0, reg, world, p);
    let q0 = p.spec_offset(-1, 0, 0);
    let q1 = p.spec_offset(1, 0, 0);
    let q2 = p.spec_offset(0, 0, -1);
    let q3 = p.spec_offset(0, 0, 1);
    assert(q0 == neighbor(p, 0, world) && at(q0, world) == q0);
    assert(q1 == neighbor(p, 1, world) && at(q1, world) == q1);
    assert(q2 == neighbor(p, 2, world) && at(q2, world) == q2);
    assert(q3 == neighbor(p, 3, world) && at(q3, world) == q3);
    assert(q0 != q1 && q0 != q2 && q0 != q3 && q1 != q2 && q1 != q3 && q2 != q3);
    assert(!f.can_displace(w.0, reg, below(p)));
    let nd: i32 = 1;
    let w1 = if dirs[0] {
        f.flow_into_model(w, reg, world, q0, nd)
    } else {
        w
    };
    let w2 = if dirs[1] {
        f.flow_into_model(w1, reg, world, q1, nd)
    } else {
        w1
    };
    let w3 = if dirs[2] {
        f.flow_into_model(w2, reg, world, q2, nd)
    } else {
        w2
    };
    let w4 = if dirs[3] {
        f.flow_into_model(w3, reg, world, q3, nd)
    } else {
        w3
    };
    assert(f.spread_phase(w, reg, world, p, our) == w4);
    let qk = neighbor(p, k, world);
    let ws = seq![w, w1, w2, w3];
    let qs = seq![q0, q1, q2, q3];
    assert forall|j: int| 0 <= j < 4 && j != k && dirs[j] implies ({
        let n = f.flow_into_model(ws[j], reg, world, qs[j], nd);
        &&& n.0.contains_key(qk) == ws[j].0.contains_key(qk)
        &&& (ws[j].0.contains_key(qk) ==> n.0[qk] == ws[j].0[qk])
        &&& f.can_displace(n.0, reg, qk) == f.can_displace(ws[j].0, reg, qk)
    }) by {
        assert(qs[j] != qk);
        lemma_flow_into_elsewhere(f, ws[j], reg, world, qs[j], nd, qk);
    }
    assert(qs[k] == qk);
    if k == 0 {
        lemma_flow_into_here(f, w, reg, world, q0, nd);
    } else if k == 1 {
        lemma_flow_into_here(f, w1, reg, world, q1, nd);
    } else if k == 2 {
        lemma_flow_into_here(f, w2, reg, world, q2, nd);
    } else {
        lemma_flow_into_here(f, w3, reg, world, q3, nd);
    }
}

/// Fluid over a block it may replace falls into it: that block becomes
/// this fluid with a falling decay, 8 unless it was falling already, and
/// no block to the side changes.
pub proof fn law_fluid_falls_first(
    f: FluidBlock,
    w: FluidModel,
    reg: ItemRegistry,
    world: i32,
    p: BlockPosition,
    our: int,
    k: int,
)
    requires
        p.world == world,
        flow_room(p, 1),
        0 <= our <= 255,
        f.can_displace(w.0, reg, below(p)),
        0 <= k < 4,
    ensures
        f.spread_phase(w, reg, world, p, our).0[below(p)] == BlockState::spec_new(
            f.id,
            if our >= 8 {
                our as u8
            } else {
                8u8
            },
        ),
        f.spread_phase(w, reg, world, p, our).0.contains_key(neighbor(p, k, world)) == w.0.contains_key(
            neighbor(p, k, world),
        ),
        w.0.contains_key(neighbor(p, k, world)) ==> f.spread_phase(w, reg, world, p, our).0[neighbor(
            p,
            k,
            world,
        )] == w.0[neighbor(p, k, world)],
{
    assert(at(below(p), world) == below(p));
    assert(neighbor(p, k, world) != below(p));
}

} // verus!
