//! Game logic of a voxel sandbox: chunks of blocks, their light and fluids,
//! the mesh data that is built from them, and the state of a character.
use vstd::prelude::*;

pub mod time;
pub mod pos;
pub mod side;
pub mod chunk;
pub mod health;
pub mod experience;
pub mod game_log;
pub mod item;
pub mod block_type;
pub mod block_mining;
pub mod iter;
pub mod worldbox;
pub mod vertex;
pub mod meshgen;
pub mod plane;
pub mod block_mesh;
pub mod character;
pub mod text;
pub mod ui;
pub mod reactor;
pub mod input;
pub mod message;
pub mod worldgen;
pub mod queue;
pub mod icons;

pub use block_mining::{BlockMining, BlockMiningMap};
pub use block_mesh::BlockMesh;
pub use block_type::{BlockType, MiningCategory, Rgba8};
pub use character::{Character, CharacterAnimation, FallOutcome, RaycastReturn};
pub use chunk::block::ChunkBlockData;
pub use chunk::blit::{blit_chunk_buffer, blit_chunk_data};
pub use chunk::fluid::ChunkFluidData;
pub use chunk::light_data::ChunkLightData;
pub use experience::Experience;
pub use game_log::GameLog;
pub use health::Health;
pub use icons::Image;
pub use input::{InputAction, InputState, Key};
pub use item::{BlockItem, Item, ScriptedItem, ScriptedItemList};
pub use iter::ChunkPosIter;
pub use message::SfxId;
pub use pos::IVec3;
pub use queue::{ChunkRequestQueue, PosSet};
pub use reactor::{Dispatch, Reactor};
pub use side::Side;
pub use text::{TextMesh, Vertex2D};
pub use time::Instant;
pub use vertex::BlockVertex;
pub use worldbox::WorldBox;
pub use worldgen::{OutlineSearch, WorldGenOutline};

verus! {

/// Number of bits of a coordinate inside a chunk.
pub const CHUNK_BITS: i32 = 5;

/// Edge length of a chunk, in blocks (`1 << CHUNK_BITS`).
pub const CHUNK_SIZE: usize = 32;

/// Mask that keeps the part of a coordinate that lies inside a chunk.
pub const CHUNK_MASK: i32 = 31;

/// The blocks (or light values, or fluid levels) of one chunk, indexed `[x][y][z]`.
pub type ChunkData = [[[u8; 32]; 32]; 32];

/// A chunk with a border of one block on every side, indexed `[x][y][z]`;
/// the chunk itself lies at indices `1..=32`.
pub type ChunkBuffer = [[[u8; 34]; 34]; 34];

/// Index of a chunk in the 3×3×3 block of chunks around (and including) a
/// chunk; `(x, y, z)` is its offset plus one, so `(1, 1, 1)` is the chunk
/// itself.
pub fn neighbor_off(x: usize, y: usize, z: usize) -> (i: usize)
    requires
        x < 3,
        y < 3,
        z < 3,
    ensures
        i == x * 9 + y * 3 + z,
        i < 27,
{
    x * 9 + y * 3 + z
}

} // verus!
