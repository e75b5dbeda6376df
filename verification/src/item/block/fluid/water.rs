//! Water.
use vstd::prelude::*;

use super::{
    flow_room, id_at, spec_is_water, still_neighbor_model, still_neighbor_update, FluidBlock,
    FluidMaterial, FluidWorld,
};
use crate::game::BlockPosition;
use crate::protocol::packets::Face;
use crate::world::BlockState;

verus! {

/// Moving water, placed with the given block id.
pub struct MovingWaterBlock(pub u8);

impl MovingWaterBlock {
    pub open spec fn spec_fluid(&self) -> FluidBlock {
        FluidBlock { id: self.0, material: FluidMaterial::Water }
    }

    /// The flow logic of this water.
    pub fn fluid(&self) -> (r: FluidBlock)
        ensures
            r == self.spec_fluid(),
    {
        FluidBlock { id: self.0, material: FluidMaterial::Water }
    }

    pub fn id(&self) -> (r: u8)
        ensures
            r == self.0,
    {
        self.0
    }

    pub fn is_same_material(id: u8) -> (r: bool)
        ensures
            r == spec_is_water(id),
    {
        super::is_water(id)
    }

    pub fn material() -> (r: FluidMaterial)
        ensures
            r == FluidMaterial::Water,
    {
        FluidMaterial::Water
    }

    pub fn tick_rate() -> (r: u128)
        ensures
            r == 5,
    {
        5
    }

    pub fn light_emittance(&self) -> (r: u8)
        ensures
            r == 1,
    {
        1
    }

    pub fn opacity() -> (r: u8)
        ensures
            r == 3,
    {
        3
    }

    /// Hardens lava at `p` that touches water; water never hardens.
    pub fn check_for_harden(w: &mut FluidWorld, world: i32, p: BlockPosition)
        requires
            flow_room(p, 1),
        ensures
            final(w).model() == FluidMaterial::Water.harden_model(old(w).model(), p),
            final(w).registry == old(w).registry,
    {
        FluidMaterial::Water.check_for_harden(w, world, p);
    }

    /// Ticks this fluid at `p`; see `FluidBlock::tick`.
    pub fn tick(&self, w: &mut FluidWorld, world: i32, state: BlockState, p: BlockPosition)
        requires
            self.spec_fluid().tick_defined(old(w).blocks@, world, state, p),
        ensures
            exists|roll: u32|
                roll < 4 && final(w).model() == #[trigger] self.spec_fluid().spec_tick(
                    old(w).model(),
                    old(w).registry,
                    world,
                    state,
                    p,
                    roll,
                ),
            final(w).registry == old(w).registry,
    {
        self.fluid().tick(w, world, state, p);
    }

    /// Called when this fluid is placed at `p`; see `FluidBlock::added`.
    pub fn added(&self, w: &mut FluidWorld, world: i32, p: BlockPosition, state: BlockState)
        requires
            flow_room(p, 1),
        ensures
            final(w).model() == self.spec_fluid().added_model(old(w).model(), world, p),
            final(w).registry == old(w).registry,
    {
        self.fluid().added(w, world, p, state);
    }

    /// Called when a neighbour of `p` changes; see `FluidBlock::neighbor_update`.
    pub fn neighbor_update(
        &self,
        w: &mut FluidWorld,
        world: i32,
        p: BlockPosition,
        state: BlockState,
        offset: Face,
        neighbor_state: BlockState,
    )
        requires
            flow_room(p, 1),
        ensures
            final(w).model() == FluidMaterial::Water.harden_model(old(w).model(), p),
            final(w).registry == old(w).registry,
    {
        self.fluid().neighbor_update(w, world, p, state, offset, neighbor_state);
    }
}

/// Still water: block id 9.
pub struct NotFlowingWaterBlock;

impl NotFlowingWaterBlock {
    pub fn id(&self) -> (r: u8)
        ensures
            r == 9,
    {
        9
    }

    pub fn passable(&self) -> (r: bool)
        ensures
            r,
    {
        true
    }

    pub fn opacity(&self) -> (r: u8)
        ensures
            r == 3,
    {
        3
    }

    pub fn item_stack_size(&self) -> (r: i8)
        ensures
            r == 1,
    {
        1
    }

    pub fn is_solid(&self) -> (r: bool)
        ensures
            !r,
    {
        false
    }

    pub fn can_place_over(&self) -> (r: bool)
        ensures
            r,
    {
        true
    }

    /// Called when still water is placed at `p`; water does not harden.
    pub fn added(&self, w: &mut FluidWorld, world: i32, p: BlockPosition, state: BlockState)
        requires
            flow_room(p, 1),
        ensures
            final(w).model() == FluidMaterial::Water.harden_model(old(w).model(), p),
            final(w).registry == old(w).registry,
    {
        FluidMaterial::Water.check_for_harden(w, world, p);
    }

    /// Called when a neighbour of `p` changes: the water starts moving
    /// again.
    pub fn neighbor_update(
        &self,
        w: &mut FluidWorld,
        world: i32,
        p: BlockPosition,
        state: BlockState,
        offset: Face,
        neighbor_state: BlockState,
    )
        requires
            flow_room(p, 1),
            offset != Face::Invalid && id_at(old(w).blocks@, p) == 9 ==> state.b_type > 0,
        ensures
            final(w).model() == still_neighbor_model(
                FluidMaterial::Water,
                9,
                old(w).model(),
                world,
                p,
                state,
                offset,
            ),
            final(w).registry == old(w).registry,
    {
        still_neighbor_update(FluidMaterial::Water, 9, w, world, p, state, offset);
    }
}

} // verus!
