use vstd::prelude::*;

verus! {

/// The position of a block within a world.
#[derive(Clone, Copy, Debug, PartialEq, Eq, Structural)]
pub struct BlockPosition {
    pub x: i32,
    pub y: i32,
    pub z: i32,
    pub world: i32,
}

/// Whether moving each coordinate by up to `d` stays within `i32`.
pub open spec fn coords_within(pos: BlockPosition, d: int) -> bool {
    &&& i32::MIN + d <= pos.x <= i32::MAX - d
    &&& i32::MIN + d <= pos.y <= i32::MAX - d
    &&& i32::MIN + d <= pos.z <= i32::MAX - d
}

impl BlockPosition {
    pub fn new(x: i32, y: i32, z: i32, world: i32) -> (r: Self)
        ensures
            r == (BlockPosition { x, y, z, world }),
    {
        BlockPosition { x, y, z, world }
    }

    pub open spec fn spec_offset(self, dx: int, dy: int, dz: int) -> BlockPosition {
        BlockPosition {
            x: (self.x + dx) as i32,
            y: (self.y + dy) as i32,
            z: (self.z + dz) as i32,
            world: self.world,
        }
    }

    /// The position moved by the given amounts in the same world.
    pub fn offset(self, dx: i32, dy: i32, dz: i32) -> (r: Self)
        requires
            i32::MIN <= self.x + dx <= i32::MAX,
            i32::MIN <= self.y + dy <= i32::MAX,
            i32::MIN <= self.z + dz <= i32::MAX,
        ensures
            r == self.spec_offset(dx as int, dy as int, dz as int),
    {
        BlockPosition { x: self.x + dx, y: self.y + dy, z: self.z + dz, world: self.world }
    }
}

} // verus!
