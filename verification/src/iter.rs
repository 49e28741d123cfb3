//! Walking over every cell of a chunk.
use vstd::prelude::*;

verus! {

/// The cell that a walk over a chunk visits at step `i`: `x` changes
/// slowest, `z` fastest.
pub open spec fn cell_at(i: int) -> (usize, usize, usize) {
    ((i / 1024) as usize, ((i / 32) % 32) as usize, (i % 32) as usize)
}

/// A walk over every cell of a chunk, `x` slowest and `z` fastest.
pub struct ChunkPosIter {
    i: usize,
}

impl Default for ChunkPosIter {
    fn default() -> (r: Self)
        ensures
            r.step() == 0,
    {
        Self::new()
    }
}

impl ChunkPosIter {
    /// How many cells the walk has visited.
    pub closed spec fn step(&self) -> int {
        self.i as int
    }

    /// A walk that starts at cell `(0, 0, 0)`.
    pub fn new() -> (r: Self)
        ensures
            r.step() == 0,
    {
        Self { i: 0 }
    }

    /// The next cell, or `None` once all 32768 cells were visited.
    pub fn next(&mut self) -> (r: Option<(usize, usize, usize)>)
        ensures
            old(self).step() < 32768 ==> r == Some(cell_at(old(self).step())) && final(self).step()
                == old(self).step() + 1,
            old(self).step() >= 32768 ==> r is None && final(self).step() == old(self).step(),
    {
        let i = self.i;
        let x = i >> 10usize;
        assert(x == i / 1024) by (bit_vector)
            requires
                x == i >> 10usize,
        ;
        if x >= 32 {
            return None;
        }
        let y = (i >> 5usize) & 31usize;
        let z = i & 31usize;
        assert(y == (i / 32) % 32 && z == i % 32) by (bit_vector)
            requires
                y == (i >> 5usize) & 31usize,
                z == i & 31usize,
        ;
        self.i = self.i + 1;
        Some((x, y, z))
    }
}

/// The walk visits every cell of a chunk exactly once: step `i` for
/// `i < 32768` is a cell of the chunk, and the cell `(x, y, z)` is visited at
/// step `x * 1024 + y * 32 + z` and no other.
pub proof fn lemma_walk_covers_chunk(i: int, x: int, y: int, z: int)
    requires
        0 <= i < 32768,
        0 <= x < 32 && 0 <= y < 32 && 0 <= z < 32,
    ensures
        cell_at(i).0 < 32 && cell_at(i).1 < 32 && cell_at(i).2 < 32,
        cell_at(x * 1024 + y * 32 + z) == (x as usize, y as usize, z as usize),
        cell_at(i) == (x as usize, y as usize, z as usize) <==> i == x * 1024 + y * 32 + z,
{
    let j = x * 1024 + y * 32 + z;
    assert((x * 1024 + y * 32 + z) / 1024 == x) by (nonlinear_arith)
        requires
            0 <= y < 32 && 0 <= z < 32,
    ;
    assert(((x * 1024 + y * 32 + z) / 32) % 32 == y) by (nonlinear_arith)
        requires
            0 <= y < 32 && 0 <= z < 32 && 0 <= x,
    ;
    assert((x * 1024 + y * 32 + z) % 32 == z) by (nonlinear_arith)
        requires
            0 <= y < 32 && 0 <= z < 32 && 0 <= x,
    ;
    assert(i == (i / 1024) * 1024 + ((i / 32) % 32) * 32 + i % 32) by (nonlinear_arith)
        requires
            0 <= i,
    ;
}

} // verus!
