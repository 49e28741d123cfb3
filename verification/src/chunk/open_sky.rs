//! The light of a chunk that lies open to the sky: full sunlight (level 15)
//! enters every column from above.
use vstd::prelude::*;
use crate::chunk::block::{lemma_block_view, ChunkBlockData};
use crate::chunk::in_cube;
use crate::chunk::light::{
    finish_light, lemma_blurred_bounded, lemma_sun_bounds, light_at, sky_seed, sunlight,
};
use crate::time::{instant_now, Instant};

verus! {

/// The light level of every cell of one chunk under an open sky, with the
/// time of its last computation.
#[derive(Debug)]
pub struct ChunkLightData {
    pub(crate) last_updated: Instant,
    pub data: [[[u8; 32]; 32]; 32],
}

impl View for ChunkLightData {
    type V = [[[u8; 32]; 32]; 32];

    /// The light levels, indexed `[x][y][z]`.
    closed spec fn view(&self) -> [[[u8; 32]; 32]; 32] {
        self.data
    }
}

impl Clone for ChunkLightData {
    /// A copy with the same cells and time stamps.
    fn clone(&self) -> (r: Self)
        ensures
            r == *self,
    {
        ChunkLightData { last_updated: self.last_updated, data: self.data }
    }
}

impl ChunkLightData {
    /// The time of the last computation.
    pub closed spec fn updated_at(&self) -> Instant {
        self.last_updated
    }

    /// The light of `chunk` (see [`ChunkLightData::calculate`]).
    pub fn new(chunk: &ChunkBlockData) -> (r: Self)
        ensures
            forall|x: int, y: int, z: int|
                in_cube(x, y, z) ==> #[trigger] r@[x][y][z] as int == light_at(chunk@, sky_seed(chunk@, 15), x, y, z),
    {
        let mut ret = Self { last_updated: instant_now(), data: crate::chunk::zeroed() };
        ret.calculate(chunk);
        ret
    }

    pub fn get_last_updated(&self) -> (t: Instant)
        ensures
            t == self.updated_at(),
    {
        self.last_updated
    }

    /// Lets full sunlight fall into every column of `chunk`: each empty cell
    /// below the sky gets level 15, each block stops it; then the light
    /// spreads and is halved inside blocks. Stamps the result with the
    /// current time.
    pub fn calculate(&mut self, chunk: &ChunkBlockData)
        ensures
            forall|x: int, y: int, z: int|
                in_cube(x, y, z) ==> #[trigger] final(self)@[x][y][z] as int == light_at(
                    chunk@,
                    sky_seed(chunk@, 15),
                    x,
                    y,
                    z,
                ),
            forall|x: int, y: int, z: int| in_cube(x, y, z) ==> #[trigger] final(self)@[x][y][z] <= 15,
    {
        proof {
            lemma_block_view(chunk);
        }
        let mut light = [[15u8; 32]; 32];
        sunlight(&mut self.data, &chunk.data, &mut light);
        let ghost seed = sky_seed(chunk@, 15);
        assert forall|x: int, y: int, z: int| in_cube(x, y, z) implies 0 <= #[trigger] seed(x, y, z)
            <= 15 by {
            lemma_sun_bounds(chunk@, 15, x, y, z);
        }
        proof {
            lemma_blurred_bounded(seed, 15);
        }
        finish_light(&mut self.data, &chunk.data, Ghost(seed));
        self.last_updated = instant_now();
    }
}

} // verus!
