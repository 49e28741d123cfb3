//! Integer positions in the world.
use vstd::prelude::*;

verus! {

/// A position (or extent) with three integer coordinates.
#[derive(Clone, Copy, Debug, PartialEq, Eq, Hash, Structural)]
pub struct IVec3 {
    pub x: i32,
    pub y: i32,
    pub z: i32,
}

impl Default for IVec3 {
    /// The origin.
    fn default() -> (r: Self)
        ensures
            r == (IVec3 { x: 0, y: 0, z: 0 }),
    {
        IVec3 { x: 0, y: 0, z: 0 }
    }
}

impl IVec3 {
    pub fn new(x: i32, y: i32, z: i32) -> (r: Self)
        ensures
            r.x == x,
            r.y == y,
            r.z == z,
    {
        IVec3 { x, y, z }
    }

    /// Whether all three coordinates lie in `0..32`, i.e. the position names a
    /// block inside one chunk.
    pub open spec fn in_chunk(self) -> bool {
        0 <= self.x < 32 && 0 <= self.y < 32 && 0 <= self.z < 32
    }
}

} // verus!
