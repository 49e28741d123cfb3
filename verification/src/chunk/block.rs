//! The blocks of one chunk.
use vstd::prelude::*;
use crate::chunk::{
    box_fits, fill_box, fill_pillar, fill_sphere, filled, in_box, in_cube, in_pillar, in_sphere,
    pillar_fits, sphere_fits, zeroed,
};
use crate::pos::IVec3;
use crate::time::{instant_now, Instant};

verus! {

/// The block kinds of one chunk, 0 being air, with the time of its last change.
#[derive(Debug)]
pub struct ChunkBlockData {
    pub(crate) last_updated: Instant,
    pub data: [[[u8; 32]; 32]; 32],
}

impl View for ChunkBlockData {
    type V = [[[u8; 32]; 32]; 32];

    /// The blocks, indexed `[x][y][z]`.
    closed spec fn view(&self) -> [[[u8; 32]; 32]; 32] {
        self.data
    }
}

/// The view of a chunk is its `data` field.
pub(crate) proof fn lemma_block_view(c: &ChunkBlockData)
    ensures
        c@ == c.data,
{
}

impl Clone for ChunkBlockData {
    /// A copy with the same cells and time stamps.
    fn clone(&self) -> (r: Self)
        ensures
            r == *self,
    {
        ChunkBlockData { last_updated: self.last_updated, data: self.data }
    }
}

impl Default for ChunkBlockData {
    fn default() -> (r: Self)
        ensures
            forall|x: int, y: int, z: int| in_cube(x, y, z) ==> #[trigger] r@[x][y][z] == 0,
    {
        Self::new()
    }
}

impl ChunkBlockData {
    /// The time of the last change that stamps the chunk.
    pub closed spec fn updated_at(&self) -> Instant {
        self.last_updated
    }

    /// A chunk of air, stamped with the current time.
    pub fn new() -> (r: Self)
        ensures
            forall|x: int, y: int, z: int| in_cube(x, y, z) ==> #[trigger] r@[x][y][z] == 0,
    {
        let data = zeroed();
        let last_updated = instant_now();
        Self { data, last_updated }
    }

    pub fn get_last_updated(&self) -> (t: Instant)
        ensures
            t == self.updated_at(),
    {
        self.last_updated
    }

    pub fn get_block(&self, pos: IVec3) -> (b: u8)
        requires
            pos.in_chunk(),
        ensures
            b == self@[pos.x as int][pos.y as int][pos.z as int],
    {
        self.data[pos.x as usize][pos.y as usize][pos.z as usize]
    }

    /// Sets one block and stamps the chunk with the current time.
    pub fn set_block(&mut self, block: u8, pos: IVec3)
        requires
            pos.in_chunk(),
        ensures
            filled(
                old(self)@,
                final(self)@,
                block,
                |x: int, y: int, z: int| x == pos.x && y == pos.y && z == pos.z,
            ),
    {
        self.last_updated = instant_now();
        self.data[pos.x as usize][pos.y as usize][pos.z as usize] = block;
    }

    /// Sets every block of the sphere of `radius` around `pos` (see
    /// [`in_sphere`]) and stamps the chunk with the current time.
    pub fn set_sphere(&mut self, block: u8, pos: IVec3, radius: i32)
        requires
            sphere_fits(pos, radius as int),
        ensures
            filled(
                old(self)@,
                final(self)@,
                block,
                |x: int, y: int, z: int| in_sphere(pos, radius as int, x, y, z),
            ),
    {
        self.last_updated = instant_now();
        fill_sphere(&mut self.data, block, pos, radius);
    }

    /// Sets every block of the box at `pos` of extent `size` and stamps the
    /// chunk with the current time.
    pub fn set_box(&mut self, block: u8, pos: IVec3, size: IVec3)
        requires
            box_fits(pos, size),
        ensures
            filled(old(self)@, final(self)@, block, |x: int, y: int, z: int| in_box(pos, size, x, y, z)),
    {
        self.last_updated = instant_now();
        fill_box(&mut self.data, block, pos, size);
    }

    /// Sets the blocks of the column at `pos.x`, `pos.z` from `pos.y` up to
    /// `goal_y`, cut to the chunk; the time stamp stays as it was.
    pub fn set_pillar(&mut self, block: u8, pos: IVec3, goal_y: i32)
        requires
            pillar_fits(pos, goal_y as int),
        ensures
            filled(
                old(self)@,
                final(self)@,
                block,
                |x: int, y: int, z: int| in_pillar(pos, goal_y as int, x, y, z),
            ),
            final(self).updated_at() == old(self).updated_at(),
    {
        fill_pillar(&mut self.data, block, pos, goal_y);
    }
}

} // verus!
