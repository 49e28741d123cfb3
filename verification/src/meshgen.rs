//! Building the mesh of a chunk: which faces of its blocks can be seen, how
//! much light reaches each corner, and which faces are drawn for a chunk
//! seen from a given direction.
use vstd::prelude::*;
use crate::chunk::block::{lemma_block_view, ChunkBlockData};
use crate::chunk::light_data::{lemma_light_view, ChunkLightData};
use crate::chunk::blit::in_buffer;
use crate::chunk::in_cube;
use crate::iter::{cell_at, lemma_walk_covers_chunk, ChunkPosIter};

verus! {

/// The average of four light values, capped at 15.
pub open spec fn corner_light(a: u8, b: u8, c: u8, d: u8) -> u16 {
    vstd::math::min((a + b + c + d) / 4, 15) as u16
}

fn average_light(a: u8, b: u8, c: u8, d: u8) -> (r: u16)
    ensures
        r == corner_light(a, b, c, d),
{
    let s = (a as u16 + b as u16 + c as u16 + d as u16) / 4;
    if s < 15 {
        s
    } else {
        15
    }
}

/// The light at a corner of a left or right face: the average of the four
/// cells around the edge in y and z at `[x][y][z]`, capped at 15.
pub fn light_left_right(light_data: &[[[u8; 34]; 34]; 34], x: usize, y: usize, z: usize) -> (r: u16)
    requires
        x < 34 && y < 33 && z < 33,
    ensures
        r == corner_light(
            light_data[x as int][y as int][z as int],
            light_data[x as int][y + 1][z as int],
            light_data[x as int][y as int][z + 1],
            light_data[x as int][y + 1][z + 1],
        ),
{
    average_light(light_data[x][y][z], light_data[x][y + 1][z], light_data[x][y][z + 1], light_data[x][y + 1][z + 1])
}

/// The light at a corner of a top or bottom face: the average of the four
/// cells around the edge in x and z at `[x][y][z]`, capped at 15.
pub fn light_top_bottom(light_data: &[[[u8; 34]; 34]; 34], x: usize, y: usize, z: usize) -> (r: u16)
    requires
        x < 33 && y < 34 && z < 33,
    ensures
        r == corner_light(
            light_data[x as int][y as int][z as int],
            light_data[x as int][y as int][z + 1],
            light_data[x + 1][y as int][z as int],
            light_data[x + 1][y as int][z + 1],
        ),
{
    average_light(light_data[x][y][z], light_data[x][y][z + 1], light_data[x + 1][y][z], light_data[x + 1][y][z + 1])
}

/// The light at a corner of a front or back face: the average of the four
/// cells around the edge in x and y at `[x][y][z]`, capped at 15.
pub fn light_front_back(light_data: &[[[u8; 34]; 34]; 34], x: usize, y: usize, z: usize) -> (r: u16)
    requires
        x < 33 && y < 33 && z < 34,
    ensures
        r == corner_light(
            light_data[x as int][y as int][z as int],
            light_data[x as int][y + 1][z as int],
            light_data[x + 1][y as int][z as int],
            light_data[x + 1][y + 1][z as int],
        ),
{
    average_light(light_data[x][y][z], light_data[x][y + 1][z], light_data[x + 1][y][z], light_data[x + 1][y + 1][z])
}

/// `bit` if the cell is empty, else 0.
pub open spec fn if_empty(v: u8, bit: u8) -> u8 {
    if v == 0 {
        bit
    } else {
        0
    }
}

/// The visible faces of the block at `[x][y][z]` of a buffer, one bit per
/// face whose neighbouring cell is empty: 1 front (z + 1), 2 back (z - 1),
/// 4 top (y + 1), 8 bottom (y - 1), 16 left (x - 1), 32 right (x + 1). An
/// empty cell has no faces.
pub open spec fn sides_of(b: [[[u8; 34]; 34]; 34], x: int, y: int, z: int) -> u8 {
    if b[x][y][z] == 0 {
        0
    } else {
        if_empty(b[x][y][z + 1], 1) | if_empty(b[x][y][z - 1], 2) | if_empty(b[x][y + 1][z], 4)
            | if_empty(b[x][y - 1][z], 8) | if_empty(b[x - 1][y][z], 16) | if_empty(b[x + 1][y][z], 32)
    }
}

pub fn calc_sides(pos: (usize, usize, usize), block_data: &[[[u8; 34]; 34]; 34]) -> (r: u8)
    requires
        1 <= pos.0 <= 32 && 1 <= pos.1 <= 32 && 1 <= pos.2 <= 32,
    ensures
        r == sides_of(*block_data, pos.0 as int, pos.1 as int, pos.2 as int),
{
    let (x, y, z) = pos;
    if block_data[x][y][z] == 0 {
        return 0;
    }
    (if block_data[x][y][z + 1] == 0 { 1 } else { 0 }) | (if block_data[x][y][z - 1] == 0 {
        2
    } else {
        0
    }) | (if block_data[x][y + 1][z] == 0 { 4 } else { 0 }) | (if block_data[x][y - 1][z] == 0 {
        8
    } else {
        0
    }) | (if block_data[x - 1][y][z] == 0 { 16 } else { 0 }) | (if block_data[x + 1][y][z] == 0 {
        32
    } else {
        0
    })
}

/// The faces of a chunk to draw when it lies at offset `(x, y, z)` (in
/// chunks) from the viewer: bit 1 (front) when `z <= 0`, 2 (back) when
/// `z >= 0`, 4 (top) when `y <= 0`, 8 (bottom) when `y >= 0`, 16 (left)
/// when `x >= 0`, 32 (right) when `x <= 0`.
pub open spec fn mask_of(x: i32, y: i32, z: i32) -> u8 {
    (if z <= 0 { 1u8 } else { 0u8 }) | (if z >= 0 { 2u8 } else { 0u8 }) | (if y <= 0 { 4u8 } else { 0u8 })
        | (if y >= 0 { 8u8 } else { 0u8 }) | (if x >= 0 { 16u8 } else { 0u8 }) | (if x <= 0 {
        32u8
    } else {
        0u8
    })
}

pub fn calc_mask(x_offset: i32, y_offset: i32, z_offset: i32) -> (r: u8)
    ensures
        r == mask_of(x_offset, y_offset, z_offset),
{
    (if z_offset <= 0 { 1 } else { 0 }) | (if z_offset >= 0 { 2 } else { 0 }) | (if y_offset <= 0 {
        4
    } else {
        0
    }) | (if y_offset >= 0 { 8 } else { 0 }) | (if x_offset >= 0 { 16 } else { 0 }) | (if x_offset
        <= 0 {
        32
    } else {
        0
    })
}

/// Where each face group starts in the vertex list, counted in quads: the
/// groups come in side order, so each starts where the one before ends.
pub fn side_starts(side_square_count: [usize; 6]) -> (r: [usize; 6])
    requires
        partial_sum(side_square_count, 5) <= usize::MAX,
    ensures
        forall|i: int| 0 <= i < 6 ==> #[trigger] r[i] == partial_sum(side_square_count, i),
{
    proof {
        reveal_with_fuel(partial_sum, 6);
    }
    let mut side_start = [0usize; 6];
    let mut i: usize = 1;
    while i < 6
        invariant
            1 <= i <= 6,
            partial_sum(side_square_count, 5) <= usize::MAX,
            partial_sum(side_square_count, 0) == 0,
            forall|k: int| 0 <= k < 5 ==> #[trigger] partial_sum(side_square_count, k + 1) == partial_sum(side_square_count, k) + side_square_count[k],
            forall|k: int| 0 <= k < 6 ==> #[trigger] partial_sum(side_square_count, k) <= partial_sum(side_square_count, 5),
            forall|k: int| 0 <= k < i ==> #[trigger] side_start[k] == partial_sum(side_square_count, k),
        decreases 6 - i,
    {
        assert(partial_sum(side_square_count, (i - 1) + 1) == partial_sum(side_square_count, i - 1)
            + side_square_count[i - 1]);
        assert(partial_sum(side_square_count, i as int) <= partial_sum(side_square_count, 5));
        side_start[i] = side_start[i - 1] + side_square_count[i - 1];
        i = i + 1;
    }
    side_start
}

/// The sum of the first `k` counts.
pub open spec fn partial_sum(c: [usize; 6], k: int) -> int
    decreases k,
{
    if k <= 0 {
        0
    } else {
        partial_sum(c, k - 1) + c[k - 1]
    }
}

/// The indices of `square_count` quads, two triangles each: quad `i` uses
/// vertices `4i, 4i+1, 4i+2` and `4i+2, 4i+3, 4i`.
pub fn gen_indices(square_count: usize) -> (v: Vec<u32>)
    requires
        square_count * 4 + 3 <= u32::MAX,
    ensures
        v.len() == square_count * 6,
        forall|i: int|
            0 <= i < square_count ==> {
                &&& #[trigger] v[6 * i] == 4 * i
                &&& v[6 * i + 1] == 4 * i + 1
                &&& v[6 * i + 2] == 4 * i + 2
                &&& v[6 * i + 3] == 4 * i + 2
                &&& v[6 * i + 4] == 4 * i + 3
                &&& v[6 * i + 5] == 4 * i
            },
{
    let mut v: Vec<u32> = Vec::new();
    let mut i: usize = 0;
    while i < square_count
        invariant
            i <= square_count,
            square_count * 4 + 3 <= u32::MAX,
            v.len() == i * 6,
            forall|k: int|
                0 <= k < i ==> {
                    &&& #[trigger] v[6 * k] == 4 * k
                    &&& v[6 * k + 1] == 4 * k + 1
                    &&& v[6 * k + 2] == 4 * k + 2
                    &&& v[6 * k + 3] == 4 * k + 2
                    &&& v[6 * k + 4] == 4 * k + 3
                    &&& v[6 * k + 5] == 4 * k
                },
        decreases square_count - i,
    {
        let ghost v0 = v@;
        let b = (i * 4) as u32;
        v.push(b);
        v.push(b + 1);
        v.push(b + 2);
        v.push(b + 2);
        v.push(b + 3);
        v.push(b);
        assert forall|k: int| 0 <= k < i + 1 implies {
            &&& #[trigger] v[6 * k] == 4 * k
            &&& v[6 * k + 1] == 4 * k + 1
            &&& v[6 * k + 2] == 4 * k + 2
            &&& v[6 * k + 3] == 4 * k + 2
            &&& v[6 * k + 4] == 4 * k + 3
            &&& v[6 * k + 5] == 4 * k
        } by {
            if k < i {
                assert(v[6 * k] == v0[6 * k]);
                assert(v[6 * k + 1] == v0[6 * k + 1]);
                assert(v[6 * k + 2] == v0[6 * k + 2]);
                assert(v[6 * k + 3] == v0[6 * k + 3]);
                assert(v[6 * k + 4] == v0[6 * k + 4]);
                assert(v[6 * k + 5] == v0[6 * k + 5]);
            }
        }
        i = i + 1;
    }
    v
}

/// The step at which a walk over a chunk visits cell `(x, y, z)`.
pub open spec fn step_of(x: int, y: int, z: int) -> int {
    x * 1024 + y * 32 + z
}

/// Copies the cells of a chunk into the inner part (indices `1..=32`) of a
/// buffer, walking the chunk with a [`ChunkPosIter`].
fn copy_into_buffer(buffer: &mut [[[u8; 34]; 34]; 34], data: &[[[u8; 32]; 32]; 32])
    ensures
        forall|x: int, y: int, z: int|
            in_buffer(x, y, z) ==> #[trigger] final(buffer)[x][y][z] == if in_cube(x - 1, y - 1, z - 1) {
                data[x - 1][y - 1][z - 1]
            } else {
                old(buffer)[x][y][z]
            },
{
    let ghost b0 = *buffer;
    let mut it = ChunkPosIter::new();
    loop
        invariant
            0 <= it.step() <= 32768,
            forall|x: int, y: int, z: int|
                in_buffer(x, y, z) ==> #[trigger] buffer[x][y][z] == if in_cube(x - 1, y - 1, z - 1)
                    && step_of(x - 1, y - 1, z - 1) < it.step() {
                    data[x - 1][y - 1][z - 1]
                } else {
                    b0[x][y][z]
                },
        ensures
            forall|x: int, y: int, z: int|
                in_buffer(x, y, z) ==> #[trigger] buffer[x][y][z] == if in_cube(x - 1, y - 1, z - 1) {
                    data[x - 1][y - 1][z - 1]
                } else {
                    b0[x][y][z]
                },
        decreases 32768 - it.step(),
    {
        let ghost k = it.step();
        match it.next() {
            Some(pos) => {
                let (x, y, z) = pos;
                proof {
                    lemma_walk_covers_chunk(k, 0, 0, 0);
                    assert forall|a: int, b: int, c: int| in_cube(a, b, c) implies (cell_at(k) == (
                    a as usize, b as usize, c as usize)) == (k == step_of(a, b, c)) by {
                        lemma_walk_covers_chunk(k, a, b, c);
                    }
                }
                buffer[x + 1][y + 1][z + 1] = data[x][y][z];
            },
            None => {
                proof {
                    assert forall|a: int, b: int, c: int| in_cube(a, b, c) implies step_of(a, b, c)
                        < 32768 by {
                        lemma_walk_covers_chunk(0, a, b, c);
                    }
                }
                break ;
            },
        }
    }
}

/// Copies the blocks of `chunk` into the inner part of `block_data`.
pub fn calc_block_data(block_data: &mut [[[u8; 34]; 34]; 34], chunk: &ChunkBlockData)
    ensures
        forall|x: int, y: int, z: int|
            in_buffer(x, y, z) ==> #[trigger] final(block_data)[x][y][z] == if in_cube(x - 1, y - 1, z - 1) {
                chunk@[x - 1][y - 1][z - 1]
            } else {
                old(block_data)[x][y][z]
            },
{
    proof {
        lemma_block_view(chunk);
    }
    copy_into_buffer(block_data, &chunk.data);
}

/// Copies the light of `light` into the inner part of `block_data`.
pub fn calc_light_data(block_data: &mut [[[u8; 34]; 34]; 34], light: &ChunkLightData)
    ensures
        forall|x: int, y: int, z: int|
            in_buffer(x, y, z) ==> #[trigger] final(block_data)[x][y][z] == if in_cube(x - 1, y - 1, z - 1) {
                light@[x - 1][y - 1][z - 1]
            } else {
                old(block_data)[x][y][z]
            },
{
    proof {
        lemma_light_view(light);
    }
    copy_into_buffer(block_data, &light.data);
}

/// Stores the visible faces (see [`sides_of`]) of every block of the chunk in
/// the inner part of `block_data` into `side_cache`.
pub fn calc_side_cache(side_cache: &mut [[[u8; 32]; 32]; 32], block_data: &[[[u8; 34]; 34]; 34])
    ensures
        forall|x: int, y: int, z: int|
            in_cube(x, y, z) ==> #[trigger] final(side_cache)[x][y][z] == sides_of(*block_data, x + 1, y + 1, z + 1),
{
    let mut it = ChunkPosIter::new();
    loop
        invariant
            0 <= it.step() <= 32768,
            forall|x: int, y: int, z: int|
                in_cube(x, y, z) && step_of(x, y, z) < it.step() ==> #[trigger] side_cache[x][y][z]
                    == sides_of(*block_data, x + 1, y + 1, z + 1),
        ensures
            forall|x: int, y: int, z: int|
                in_cube(x, y, z) ==> #[trigger] side_cache[x][y][z] == sides_of(*block_data, x + 1, y + 1, z + 1),
        decreases 32768 - it.step(),
    {
        let ghost k = it.step();
        match it.next() {
            Some(pos) => {
                let (x, y, z) = pos;
                proof {
                    lemma_walk_covers_chunk(k, 0, 0, 0);
                    assert forall|a: int, b: int, c: int| in_cube(a, b, c) implies (cell_at(k) == (
                    a as usize, b as usize, c as usize)) == (k == step_of(a, b, c)) by {
                        lemma_walk_covers_chunk(k, a, b, c);
                    }
                }
                side_cache[x][y][z] = calc_sides((x + 1, y + 1, z + 1), block_data);
            },
            None => {
                proof {
                    assert forall|a: int, b: int, c: int| in_cube(a, b, c) implies step_of(a, b, c)
                        < 32768 by {
                        lemma_walk_covers_chunk(0, a, b, c);
                    }
                }
                break ;
            },
        }
    }
}

} // verus!
