//! The fluid levels of one chunk.
use vstd::prelude::*;
use crate::chunk::{box_fits, fill_box, fill_pillar, filled, in_box, in_cube, in_pillar, pillar_fits, zeroed};
use crate::pos::IVec3;
use crate::time::{instant_now, Instant};

verus! {

/// The fluid of each cell of one chunk, 0 being none, with the time of its
/// last change and the time of its last update that changed nothing.
#[derive(Debug)]
pub struct ChunkFluidData {
    last_updated: Instant,
    last_update_without_changes: Instant,
    pub data: [[[u8; 32]; 32]; 32],
}

impl View for ChunkFluidData {
    type V = [[[u8; 32]; 32]; 32];

    /// The fluid levels, indexed `[x][y][z]`.
    closed spec fn view(&self) -> [[[u8; 32]; 32]; 32] {
        self.data
    }
}

impl Clone for ChunkFluidData {
    /// A copy with the same cells and time stamps.
    fn clone(&self) -> (r: Self)
        ensures
            r == *self,
    {
        ChunkFluidData { last_updated: self.last_updated, last_update_without_changes: self.last_update_without_changes, data: self.data }
    }
}

impl Default for ChunkFluidData {
    fn default() -> (r: Self)
        ensures
            forall|x: int, y: int, z: int| in_cube(x, y, z) ==> #[trigger] r@[x][y][z] == 0,
            r.updated_at() == r.unchanged_at(),
    {
        Self::new()
    }
}

impl ChunkFluidData {
    /// The time of the last change.
    pub closed spec fn updated_at(&self) -> Instant {
        self.last_updated
    }

    /// The time of the last update that changed nothing.
    pub closed spec fn unchanged_at(&self) -> Instant {
        self.last_update_without_changes
    }

    /// A chunk without fluid, both of its times set to the current time.
    pub fn new() -> (r: Self)
        ensures
            forall|x: int, y: int, z: int| in_cube(x, y, z) ==> #[trigger] r@[x][y][z] == 0,
            r.updated_at() == r.unchanged_at(),
    {
        let data = zeroed();
        let last_updated = instant_now();
        let last_update_without_changes = last_updated;
        Self { data, last_updated, last_update_without_changes }
    }

    pub fn last_updated(&self) -> (t: Instant)
        ensures
            t == self.updated_at(),
    {
        self.last_updated
    }

    pub fn last_update_without_changes(&self) -> (t: Instant)
        ensures
            t == self.unchanged_at(),
    {
        self.last_update_without_changes
    }

    /// Sets the time of the last change to the current time.
    pub fn set_last_updated(&mut self)
        ensures
            final(self)@ == old(self)@,
            final(self).unchanged_at() == old(self).unchanged_at(),
    {
        self.last_updated = instant_now();
    }

    /// Sets the time of the last update without changes to the current time.
    pub fn set_last_update_without_changes(&mut self)
        ensures
            final(self)@ == old(self)@,
            final(self).updated_at() == old(self).updated_at(),
    {
        self.last_update_without_changes = instant_now();
    }

    pub fn get(&self, pos: IVec3) -> (b: u8)
        requires
            pos.in_chunk(),
        ensures
            b == self@[pos.x as int][pos.y as int][pos.z as int],
    {
        self.data[pos.x as usize][pos.y as usize][pos.z as usize]
    }

    /// Sets the fluid of one cell and stamps the time of the last change.
    pub fn set(&mut self, block: u8, pos: IVec3)
        requires
            pos.in_chunk(),
        ensures
            filled(
                old(self)@,
                final(self)@,
                block,
                |x: int, y: int, z: int| x == pos.x && y == pos.y && z == pos.z,
            ),
            final(self).unchanged_at() == old(self).unchanged_at(),
    {
        self.last_updated = instant_now();
        self.data[pos.x as usize][pos.y as usize][pos.z as usize] = block;
    }

    /// Sets the fluid of every cell of the box at `pos` of extent `size` and
    /// stamps the time of the last change.
    pub fn set_box(&mut self, block: u8, pos: IVec3, size: IVec3)
        requires
            box_fits(pos, size),
        ensures
            filled(old(self)@, final(self)@, block, |x: int, y: int, z: int| in_box(pos, size, x, y, z)),
            final(self).unchanged_at() == old(self).unchanged_at(),
    {
        self.last_updated = instant_now();
        fill_box(&mut self.data, block, pos, size);
    }

    /// Sets the fluid of the column at `pos.x`, `pos.z` from `pos.y` up to
    /// `goal_y`, cut to the chunk; both times stay as they were.
    pub fn set_pillar(&mut self, block: u8, pos: IVec3, goal_y: i32)
        requires
            pillar_fits(pos, goal_y as int),
        ensures
            filled(
                old(self)@,
                final(self)@,
                block,
                |x: int, y: int, z: int| in_pillar(pos, goal_y as int, x, y, z),
            ),
            final(self).updated_at() == old(self).updated_at(),
            final(self).unchanged_at() == old(self).unchanged_at(),
    {
        fill_pillar(&mut self.data, block, pos, goal_y);
    }
}

} // verus!
