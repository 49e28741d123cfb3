//! Copying a chunk into a buffer that has room for a border of one block
//! around it, and back.
use vstd::prelude::*;
use crate::chunk::in_cube;

verus! {

/// Whether `(x, y, z)` indexes a cell of a chunk buffer.
pub open spec fn in_buffer(x: int, y: int, z: int) -> bool {
    0 <= x < 34 && 0 <= y < 34 && 0 <= z < 34
}

/// `v` clamped to `lo..=hi`.
pub open spec fn clamp(v: int, lo: int, hi: int) -> int {
    if v < lo {
        lo
    } else if v > hi {
        hi
    } else {
        v
    }
}

/// The cell `[x][y][z]` of a buffer into which `chunk` was copied at offset
/// `off`: the chunk's cell `[x - off[0]][y - off[1]][z - off[2]]` where that
/// lies in the chunk, else the cell of `buf` as it was.
pub open spec fn blit_value(
    buf: [[[u8; 34]; 34]; 34],
    chunk: [[[u8; 32]; 32]; 32],
    off: [isize; 3],
    x: int,
    y: int,
    z: int,
) -> u8 {
    if in_cube(x - off[0], y - off[1], z - off[2]) {
        chunk[x - off[0]][y - off[1]][z - off[2]]
    } else {
        buf[x][y][z]
    }
}

/// The range of buffer indices, along one axis, that a chunk copied at
/// offset `off` covers: `off..off + 32` clamped to the buffer.
pub fn blit_chunk_data_end(off: isize) -> (r: (usize, usize))
    requires
        off <= isize::MAX - 32,
    ensures
        r.0 as int == clamp(off as int, 0, 34),
        r.1 as int == clamp(off + 32, 0, 34),
{
    let start = off;
    let end = off + 32;
    let s: usize = if start < 0 {
        0
    } else if start > 34 {
        34
    } else {
        start as usize
    };
    let e: usize = if end < 0 {
        0
    } else if end > 34 {
        34
    } else {
        end as usize
    };
    (s, e)
}

/// Copies `chunk` into `block_data` so that its cell `[0][0][0]` lands at
/// `off`, leaving out what falls outside the buffer.
pub fn blit_chunk_data(block_data: &mut [[[u8; 34]; 34]; 34], chunk: &[[[u8; 32]; 32]; 32], off: [isize; 3])
    requires
        off[0] <= isize::MAX - 32,
        off[1] <= isize::MAX - 32,
        off[2] <= isize::MAX - 32,
    ensures
        forall|x: int, y: int, z: int|
            in_buffer(x, y, z) ==> #[trigger] final(block_data)[x][y][z] == blit_value(
                *old(block_data),
                *chunk,
                off,
                x,
                y,
                z,
            ),
{
    let ghost b0 = *block_data;
    let (x_start, x_end) = blit_chunk_data_end(off[0]);
    let (y_start, y_end) = blit_chunk_data_end(off[1]);
    let (z_start, z_end) = blit_chunk_data_end(off[2]);
    let mut x = x_start;
    while x < x_end
        invariant
            x_start as int == clamp(off[0] as int, 0, 34),
            x_end as int == clamp(off[0] + 32, 0, 34),
            y_start as int == clamp(off[1] as int, 0, 34),
            y_end as int == clamp(off[1] + 32, 0, 34),
            z_start as int == clamp(off[2] as int, 0, 34),
            z_end as int == clamp(off[2] + 32, 0, 34),
            x_start <= x,
            x <= x_end || x == x_start,
            forall|a: int, b: int, c: int|
                in_buffer(a, b, c) ==> #[trigger] block_data[a][b][c] == if a < x {
                    blit_value(b0, *chunk, off, a, b, c)
                } else {
                    b0[a][b][c]
                },
        decreases x_end - x,
    {
        let cx = (x as isize - off[0]) as usize;
        let mut y = y_start;
        while y < y_end
            invariant
                x_start as int == clamp(off[0] as int, 0, 34),
                x_end as int == clamp(off[0] + 32, 0, 34),
                y_start as int == clamp(off[1] as int, 0, 34),
                y_end as int == clamp(off[1] + 32, 0, 34),
                z_start as int == clamp(off[2] as int, 0, 34),
                z_end as int == clamp(off[2] + 32, 0, 34),
                x_start <= x < x_end,
                cx == x - off[0],
                y_start <= y,
                y <= y_end || y == y_start,
                forall|a: int, b: int, c: int|
                    in_buffer(a, b, c) ==> #[trigger] block_data[a][b][c] == if a < x || (a == x && b
                        < y) {
                        blit_value(b0, *chunk, off, a, b, c)
                    } else {
                        b0[a][b][c]
                    },
            decreases y_end - y,
        {
            let cy = (y as isize - off[1]) as usize;
            let mut z = z_start;
            while z < z_end
                invariant
                    x_start as int == clamp(off[0] as int, 0, 34),
                    x_end as int == clamp(off[0] + 32, 0, 34),
                    y_start as int == clamp(off[1] as int, 0, 34),
                    y_end as int == clamp(off[1] + 32, 0, 34),
                    z_start as int == clamp(off[2] as int, 0, 34),
                    z_end as int == clamp(off[2] + 32, 0, 34),
                    x_start <= x < x_end,
                    y_start <= y < y_end,
                    cx == x - off[0],
                    cy == y - off[1],
                    z_start <= z,
                    z <= z_end || z == z_start,
                    forall|a: int, b: int, c: int|
                        in_buffer(a, b, c) ==> #[trigger] block_data[a][b][c] == if a < x || (a == x
                            && b < y) || (a == x && b == y && c < z) {
                            blit_value(b0, *chunk, off, a, b, c)
                        } else {
                            b0[a][b][c]
                        },
                decreases z_end - z,
            {
                let cz = (z as isize - off[2]) as usize;
                block_data[x][y][z] = chunk[cx][cy][cz];
                z = z + 1;
            }
            y = y + 1;
        }
        x = x + 1;
    }
}

/// Copies the inner part of `buf` (indices `1..=32`) into `chunk`.
pub fn blit_chunk_buffer(chunk: &mut [[[u8; 32]; 32]; 32], buf: &[[[u8; 34]; 34]; 34])
    ensures
        forall|x: int, y: int, z: int|
            in_cube(x, y, z) ==> #[trigger] final(chunk)[x][y][z] == buf[x + 1][y + 1][z + 1],
{
    let mut x: usize = 0;
    while x < 32
        invariant
            x <= 32,
            forall|a: int, b: int, c: int|
                in_cube(a, b, c) && a < x ==> #[trigger] chunk[a][b][c] == buf[a + 1][b + 1][c + 1],
        decreases 32 - x,
    {
        let mut y: usize = 0;
        while y < 32
            invariant
                x < 32,
                y <= 32,
                forall|a: int, b: int, c: int|
                    in_cube(a, b, c) && (a < x || (a == x && b < y)) ==> #[trigger] chunk[a][b][c]
                        == buf[a + 1][b + 1][c + 1],
            decreases 32 - y,
        {
            let mut z: usize = 0;
            while z < 32
                invariant
                    x < 32,
                    y < 32,
                    z <= 32,
                    forall|a: int, b: int, c: int|
                        in_cube(a, b, c) && (a < x || (a == x && b < y) || (a == x && b == y && c < z))
                            ==> #[trigger] chunk[a][b][c] == buf[a + 1][b + 1][c + 1],
                decreases 32 - z,
            {
                chunk[x][y][z] = buf[x + 1][y + 1][z + 1];
                z = z + 1;
            }
            y = y + 1;
        }
        x = x + 1;
    }
}

/// A chunk copied into a buffer at offset `[1, 1, 1]` is what the inner part
/// of that buffer holds: copying it back gives the chunk unchanged.
pub proof fn lemma_blit_round_trip(buf: [[[u8; 34]; 34]; 34], chunk: [[[u8; 32]; 32]; 32], x: int, y: int, z: int)
    requires
        in_cube(x, y, z),
    ensures
        blit_value(buf, chunk, [1, 1, 1], x + 1, y + 1, z + 1) == chunk[x][y][z],
{
}

} // verus!
