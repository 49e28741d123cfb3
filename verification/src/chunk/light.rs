//! How the light of a chunk is computed: sunlight falls down each column,
//! then spreads along z, x and y, and is halved inside solid blocks.
use vstd::prelude::*;
use crate::chunk::in_cube;
use crate::chunk::spread::{bounded, lemma_spread_bounds, lemma_spread_is_max, line_of, reach, spread, spread_line};

verus! {

/// Light, as a value at each cell.
pub open spec fn as_fn(d: [[[u8; 32]; 32]; 32]) -> spec_fn(int, int, int) -> int {
    |x: int, y: int, z: int| d[x][y][z] as int
}

/// `f` and `g` give the same light at every cell of a chunk.
pub open spec fn agree(f: spec_fn(int, int, int) -> int, g: spec_fn(int, int, int) -> int) -> bool {
    forall|x: int, y: int, z: int| in_cube(x, y, z) ==> #[trigger] f(x, y, z) == g(x, y, z)
}

/// Every cell of a chunk has light in `0..=m` under `f`.
pub open spec fn light_bounded(f: spec_fn(int, int, int) -> int, m: int) -> bool {
    forall|x: int, y: int, z: int| in_cube(x, y, z) ==> 0 <= #[trigger] f(x, y, z) <= m
}

pub open spec fn z_line(f: spec_fn(int, int, int) -> int, x: int, y: int) -> Seq<int> {
    Seq::new(32, |k: int| f(x, y, k))
}

pub open spec fn x_line(f: spec_fn(int, int, int) -> int, y: int, z: int) -> Seq<int> {
    Seq::new(32, |k: int| f(k, y, z))
}

pub open spec fn y_line(f: spec_fn(int, int, int) -> int, x: int, z: int) -> Seq<int> {
    Seq::new(32, |k: int| f(x, k, z))
}

/// `f` with light spread along every line in z.
pub open spec fn spread_z(f: spec_fn(int, int, int) -> int) -> spec_fn(int, int, int) -> int {
    |x: int, y: int, z: int| spread(z_line(f, x, y), z)
}

/// `f` with light spread along every line in x.
pub open spec fn spread_x(f: spec_fn(int, int, int) -> int) -> spec_fn(int, int, int) -> int {
    |x: int, y: int, z: int| spread(x_line(f, y, z), x)
}

/// `f` with light spread along every line in y.
pub open spec fn spread_y(f: spec_fn(int, int, int) -> int) -> spec_fn(int, int, int) -> int {
    |x: int, y: int, z: int| spread(y_line(f, x, z), y)
}

/// `f` with light spread along z, then x, then y.
pub open spec fn blurred(f: spec_fn(int, int, int) -> int) -> spec_fn(int, int, int) -> int {
    spread_y(spread_x(spread_z(f)))
}

/// The light of a column that falls down to height `y`: `top` is the light
/// that enters the column from above; a solid block stops it, and each empty
/// cell passes on one level more, up to 15.
pub open spec fn sun(b: [[[u8; 32]; 32]; 32], top: int, x: int, y: int, z: int) -> int
    decreases 32 - y,
{
    let above = if y >= 31 {
        top
    } else {
        sun(b, top, x, y + 1, z)
    };
    if b[x][y][z] != 0 {
        0
    } else {
        vstd::math::min(above + 1, 15)
    }
}

/// Sunlight in chunk `b` when the same light `top` enters every column.
pub open spec fn sky_seed(b: [[[u8; 32]; 32]; 32], top: int) -> spec_fn(int, int, int) -> int {
    |x: int, y: int, z: int| sun(b, top, x, y, z)
}

/// The light of a chunk from the light `seed` it starts with: spread, then
/// halved (rounding down) in each cell that holds a block.
pub open spec fn light_at(
    b: [[[u8; 32]; 32]; 32],
    seed: spec_fn(int, int, int) -> int,
    x: int,
    y: int,
    z: int,
) -> int {
    if b[x][y][z] != 0 {
        blurred(seed)(x, y, z) / 2
    } else {
        blurred(seed)(x, y, z)
    }
}

pub proof fn lemma_sun_bounds(b: [[[u8; 32]; 32]; 32], top: int, x: int, y: int, z: int)
    requires
        0 <= y < 32,
        top >= 0,
    ensures
        0 <= sun(b, top, x, y, z) <= 15,
    decreases 32 - y,
{
    if y < 31 {
        lemma_sun_bounds(b, top, x, y + 1, z);
    }
}

/// Spreading along z gives the same light for two seeds that agree.
pub proof fn lemma_spread_z_agree(f: spec_fn(int, int, int) -> int, g: spec_fn(int, int, int) -> int)
    requires
        agree(f, g),
    ensures
        agree(spread_z(f), spread_z(g)),
{
    assert forall|x: int, y: int, z: int| in_cube(x, y, z) implies #[trigger] spread_z(f)(x, y, z)
        == spread_z(g)(x, y, z) by {
        assert(z_line(f, x, y) =~= z_line(g, x, y));
    }
}

/// Spreading along x gives the same light for two seeds that agree.
pub proof fn lemma_spread_x_agree(f: spec_fn(int, int, int) -> int, g: spec_fn(int, int, int) -> int)
    requires
        agree(f, g),
    ensures
        agree(spread_x(f), spread_x(g)),
{
    assert forall|x: int, y: int, z: int| in_cube(x, y, z) implies #[trigger] spread_x(f)(x, y, z)
        == spread_x(g)(x, y, z) by {
        assert(x_line(f, y, z) =~= x_line(g, y, z));
    }
}

/// Spreading along y gives the same light for two seeds that agree.
pub proof fn lemma_spread_y_agree(f: spec_fn(int, int, int) -> int, g: spec_fn(int, int, int) -> int)
    requires
        agree(f, g),
    ensures
        agree(spread_y(f), spread_y(g)),
{
    assert forall|x: int, y: int, z: int| in_cube(x, y, z) implies #[trigger] spread_y(f)(x, y, z)
        == spread_y(g)(x, y, z) by {
        assert(y_line(f, x, z) =~= y_line(g, x, z));
    }
}

/// Spreading along z keeps every light in `0..=m`.
pub proof fn lemma_spread_z_bounded(f: spec_fn(int, int, int) -> int, m: int)
    requires
        light_bounded(f, m),
    ensures
        light_bounded(spread_z(f), m),
{
    assert forall|x: int, y: int, z: int| in_cube(x, y, z) implies 0 <= #[trigger] spread_z(f)(x, y, z)
        <= m by {
        assert(bounded(z_line(f, x, y), m));
        lemma_spread_bounds(z_line(f, x, y), z, m);
    }
}

/// Spreading along x keeps every light in `0..=m`.
pub proof fn lemma_spread_x_bounded(f: spec_fn(int, int, int) -> int, m: int)
    requires
        light_bounded(f, m),
    ensures
        light_bounded(spread_x(f), m),
{
    assert forall|x: int, y: int, z: int| in_cube(x, y, z) implies 0 <= #[trigger] spread_x(f)(x, y, z)
        <= m by {
        assert(bounded(x_line(f, y, z), m));
        lemma_spread_bounds(x_line(f, y, z), x, m);
    }
}

/// Spreading along y keeps every light in `0..=m`.
pub proof fn lemma_spread_y_bounded(f: spec_fn(int, int, int) -> int, m: int)
    requires
        light_bounded(f, m),
    ensures
        light_bounded(spread_y(f), m),
{
    assert forall|x: int, y: int, z: int| in_cube(x, y, z) implies 0 <= #[trigger] spread_y(f)(x, y, z)
        <= m by {
        assert(bounded(y_line(f, x, z), m));
        lemma_spread_bounds(y_line(f, x, z), y, m);
    }
}

/// Spreading light never makes it brighter than the brightest seed: a seed
/// in `0..=m` gives light in `0..=m`.
pub proof fn lemma_blurred_bounded(f: spec_fn(int, int, int) -> int, m: int)
    requires
        light_bounded(f, m),
    ensures
        light_bounded(blurred(f), m),
{
    lemma_spread_z_bounded(f, m);
    lemma_spread_x_bounded(spread_z(f), m);
    lemma_spread_y_bounded(spread_x(spread_z(f)), m);
}

/// Spreads light along every line in z. The light is below 128, where
/// signed and unsigned byte arithmetic agree.
pub(crate) fn blur_z(data: &mut [[[u8; 32]; 32]; 32])
    requires
        light_bounded(as_fn(*old(data)), 127),
    ensures
        agree(as_fn(*final(data)), spread_z(as_fn(*old(data)))),
{
    let ghost d0 = *data;
    let mut x: usize = 0;
    while x < 32
        invariant
            x <= 32,
            forall|a: int, b: int, c: int|
                in_cube(a, b, c) ==> #[trigger] data[a][b][c] == if a < x {
                    spread(z_line(as_fn(d0), a, b), c)
                } else {
                    d0[a][b][c] as int
                },
        decreases 32 - x,
    {
        let mut y: usize = 0;
        while y < 32
            invariant
                x < 32,
                y <= 32,
                forall|a: int, b: int, c: int|
                    in_cube(a, b, c) ==> #[trigger] data[a][b][c] == if a < x || (a == x && b < y) {
                        spread(z_line(as_fn(d0), a, b), c)
                    } else {
                        d0[a][b][c] as int
                    },
            decreases 32 - y,
        {
            let mut line = data[x][y];
            assert(line_of(line) =~= z_line(as_fn(d0), x as int, y as int));
            spread_line(&mut line);
            data[x][y] = line;
            y = y + 1;
        }
        x = x + 1;
    }
}

/// Spreads light along every line in x. The light is below 128, where
/// signed and unsigned byte arithmetic agree.
pub(crate) fn blur_x(data: &mut [[[u8; 32]; 32]; 32])
    requires
        light_bounded(as_fn(*old(data)), 127),
    ensures
        agree(as_fn(*final(data)), spread_x(as_fn(*old(data)))),
{
    let ghost d0 = *data;
    let mut y: usize = 0;
    while y < 32
        invariant
            y <= 32,
            forall|a: int, b: int, c: int|
                in_cube(a, b, c) ==> #[trigger] data[a][b][c] == if b < y {
                    spread(x_line(as_fn(d0), b, c), a)
                } else {
                    d0[a][b][c] as int
                },
        decreases 32 - y,
    {
        let mut z: usize = 0;
        while z < 32
            invariant
                y < 32,
                z <= 32,
                forall|a: int, b: int, c: int|
                    in_cube(a, b, c) ==> #[trigger] data[a][b][c] == if b < y || (b == y && c < z) {
                        spread(x_line(as_fn(d0), b, c), a)
                    } else {
                        d0[a][b][c] as int
                    },
            decreases 32 - z,
        {
            let mut line = [0u8; 32];
            let mut k: usize = 0;
            while k < 32
                invariant
                    y < 32,
                    z < 32,
                    k <= 32,
                    forall|i: int| 0 <= i < k ==> #[trigger] line[i] == data[i][y as int][z as int],
                    forall|a: int, b: int, c: int|
                        in_cube(a, b, c) ==> #[trigger] data[a][b][c] == if b < y || (b == y && c
                            < z) {
                            spread(x_line(as_fn(d0), b, c), a)
                        } else {
                            d0[a][b][c] as int
                        },
                decreases 32 - k,
            {
                line[k] = data[k][y][z];
                k = k + 1;
            }
            assert(line_of(line) =~= x_line(as_fn(d0), y as int, z as int));
            spread_line(&mut line);
            let mut k: usize = 0;
            while k < 32
                invariant
                    y < 32,
                    z < 32,
                    k <= 32,
                    forall|i: int| 0 <= i < 32 ==> #[trigger] line[i] as int == spread(
                        x_line(as_fn(d0), y as int, z as int),
                        i,
                    ),
                    forall|a: int, b: int, c: int|
                        in_cube(a, b, c) ==> #[trigger] data[a][b][c] == if b < y || (b == y && c
                            < z) || (b == y && c == z && a < k) {
                            spread(x_line(as_fn(d0), b, c), a)
                        } else {
                            d0[a][b][c] as int
                        },
                decreases 32 - k,
            {
                data[k][y][z] = line[k];
                k = k + 1;
            }
            z = z + 1;
        }
        y = y + 1;
    }
}

/// Spreads light along every line in y. The light is below 128, where
/// signed and unsigned byte arithmetic agree.
pub(crate) fn blur_y(data: &mut [[[u8; 32]; 32]; 32])
    requires
        light_bounded(as_fn(*old(data)), 127),
    ensures
        agree(as_fn(*final(data)), spread_y(as_fn(*old(data)))),
{
    let ghost d0 = *data;
    let mut x: usize = 0;
    while x < 32
        invariant
            x <= 32,
            forall|a: int, b: int, c: int|
                in_cube(a, b, c) ==> #[trigger] data[a][b][c] == if a < x {
                    spread(y_line(as_fn(d0), a, c), b)
                } else {
                    d0[a][b][c] as int
                },
        decreases 32 - x,
    {
        let mut z: usize = 0;
        while z < 32
            invariant
                x < 32,
                z <= 32,
                forall|a: int, b: int, c: int|
                    in_cube(a, b, c) ==> #[trigger] data[a][b][c] == if a < x || (a == x && c < z) {
                        spread(y_line(as_fn(d0), a, c), b)
                    } else {
                        d0[a][b][c] as int
                    },
            decreases 32 - z,
        {
            let mut line = [0u8; 32];
            let mut k: usize = 0;
            while k < 32
                invariant
                    x < 32,
                    z < 32,
                    k <= 32,
                    forall|i: int| 0 <= i < k ==> #[trigger] line[i] == data[x as int][i][z as int],
                    forall|a: int, b: int, c: int|
                        in_cube(a, b, c) ==> #[trigger] data[a][b][c] == if a < x || (a == x && c
                            < z) {
                            spread(y_line(as_fn(d0), a, c), b)
                        } else {
                            d0[a][b][c] as int
                        },
                decreases 32 - k,
            {
                line[k] = data[x][k][z];
                k = k + 1;
            }
            assert(line_of(line) =~= y_line(as_fn(d0), x as int, z as int));
            spread_line(&mut line);
            let mut k: usize = 0;
            while k < 32
                invariant
                    x < 32,
                    z < 32,
                    k <= 32,
                    forall|i: int| 0 <= i < 32 ==> #[trigger] line[i] as int == spread(
                        y_line(as_fn(d0), x as int, z as int),
                        i,
                    ),
                    forall|a: int, b: int, c: int|
                        in_cube(a, b, c) ==> #[trigger] data[a][b][c] == if a < x || (a == x && c
                            < z) || (a == x && c == z && b < k) {
                            spread(y_line(as_fn(d0), a, c), b)
                        } else {
                            d0[a][b][c] as int
                        },
                decreases 32 - k,
            {
                data[x][k][z] = line[k];
                k = k + 1;
            }
            z = z + 1;
        }
        x = x + 1;
    }
}

/// The light that enters each column from above can pass its top cell
/// without overflowing a byte.
pub open spec fn top_fits(blocks: [[[u8; 32]; 32]; 32], top: [[u8; 32]; 32]) -> bool {
    forall|x: int, z: int|
        0 <= x < 32 && 0 <= z < 32 && #[trigger] blocks[x][31][z] == 0 ==> top[x][z] < 255
}

/// Lets sunlight fall down every column, from the top layer down: `light`
/// holds, per column `[x][z]`, the light that enters it, and ends up with the
/// light that leaves its bottom.
pub(crate) fn sunlight(data: &mut [[[u8; 32]; 32]; 32], blocks: &[[[u8; 32]; 32]; 32], light: &mut [[u8; 32]; 32])
    requires
        top_fits(*blocks, *old(light)),
    ensures
        forall|x: int, y: int, z: int|
            in_cube(x, y, z) ==> #[trigger] final(data)[x][y][z] == sun(*blocks, old(light)[x][z] as int, x, y, z),
        forall|x: int, z: int|
            0 <= x < 32 && 0 <= z < 32 ==> #[trigger] final(light)[x][z] == sun(*blocks, old(light)[x][z] as int, x, 0, z),
{
    let ghost top = *light;
    let mut y: usize = 32;
    while y > 0
        invariant
            top_fits(*blocks, top),
            y <= 32,
            forall|a: int, b: int, c: int|
                in_cube(a, b, c) && b >= y ==> #[trigger] data[a][b][c] == sun(*blocks, top[a][c] as int, a, b, c),
            forall|a: int, c: int|
                0 <= a < 32 && 0 <= c < 32 ==> #[trigger] light[a][c] == if y == 32 {
                    top[a][c] as int
                } else {
                    sun(*blocks, top[a][c] as int, a, y as int, c)
                },
        decreases y,
    {
        y = y - 1;
        let mut x: usize = 0;
        while x < 32
            invariant
                top_fits(*blocks, top),
                y < 32,
                x <= 32,
                forall|a: int, b: int, c: int|
                    in_cube(a, b, c) && (b > y || (b == y && a < x)) ==> #[trigger] data[a][b][c] == sun(
                        *blocks,
                        top[a][c] as int,
                        a,
                        b,
                        c,
                    ),
                forall|a: int, c: int|
                    0 <= a < 32 && 0 <= c < 32 ==> #[trigger] light[a][c] == if a < x {
                        sun(*blocks, top[a][c] as int, a, y as int, c)
                    } else if y == 31 {
                        top[a][c] as int
                    } else {
                        sun(*blocks, top[a][c] as int, a, y + 1, c)
                    },
            decreases 32 - x,
        {
            let mut z: usize = 0;
            while z < 32
                invariant
                    top_fits(*blocks, top),
                    y < 32,
                    x < 32,
                    z <= 32,
                    forall|a: int, b: int, c: int|
                        in_cube(a, b, c) && (b > y || (b == y && (a < x || (a == x && c < z))))
                            ==> #[trigger] data[a][b][c] == sun(*blocks, top[a][c] as int, a, b, c),
                    forall|a: int, c: int|
                        0 <= a < 32 && 0 <= c < 32 ==> #[trigger] light[a][c] == if a < x || (a == x
                            && c < z) {
                            sun(*blocks, top[a][c] as int, a, y as int, c)
                        } else if y == 31 {
                            top[a][c] as int
                        } else {
                            sun(*blocks, top[a][c] as int, a, y + 1, c)
                        },
                decreases 32 - z,
            {
                proof {
                    if y < 31 {
                        lemma_sun_bounds(*blocks, top[x as int][z as int] as int, x as int, y + 1, z as int);
                    }
                }
                let b = blocks[x][y][z];
                if b != 0 {
                    light[x][z] = 0;
                    data[x][y][z] = 0;
                } else {
                    let l = light[x][z] + 1;
                    light[x][z] = if l < 15 {
                        l
                    } else {
                        15
                    };
                    data[x][y][z] = light[x][z];
                }
                z = z + 1;
            }
            x = x + 1;
        }
    }
}

/// Halves (rounding down) the light of every cell that holds a block.
pub(crate) fn ambient_occlusion(data: &mut [[[u8; 32]; 32]; 32], blocks: &[[[u8; 32]; 32]; 32])
    ensures
        forall|x: int, y: int, z: int|
            in_cube(x, y, z) ==> #[trigger] final(data)[x][y][z] == if blocks[x][y][z] != 0 {
                old(data)[x][y][z] / 2
            } else {
                old(data)[x][y][z]
            },
{
    let ghost d0 = *data;
    let mut x: usize = 0;
    while x < 32
        invariant
            x <= 32,
            forall|a: int, b: int, c: int|
                in_cube(a, b, c) ==> #[trigger] data[a][b][c] == if blocks[a][b][c] != 0 && a < x {
                    d0[a][b][c] / 2
                } else {
                    d0[a][b][c]
                },
        decreases 32 - x,
    {
        let mut y: usize = 0;
        while y < 32
            invariant
                x < 32,
                y <= 32,
                forall|a: int, b: int, c: int|
                    in_cube(a, b, c) ==> #[trigger] data[a][b][c] == if blocks[a][b][c] != 0 && (a < x
                        || (a == x && b < y)) {
                        d0[a][b][c] / 2
                    } else {
                        d0[a][b][c]
                    },
            decreases 32 - y,
        {
            let mut z: usize = 0;
            while z < 32
                invariant
                    x < 32,
                    y < 32,
                    z <= 32,
                    forall|a: int, b: int, c: int|
                        in_cube(a, b, c) ==> #[trigger] data[a][b][c] == if blocks[a][b][c] != 0 && (a
                            < x || (a == x && b < y) || (a == x && b == y && c < z)) {
                            d0[a][b][c] / 2
                        } else {
                            d0[a][b][c]
                        },
                decreases 32 - z,
            {
                if blocks[x][y][z] != 0 {
                    data[x][y][z] = data[x][y][z] / 2;
                }
                z = z + 1;
            }
            y = y + 1;
        }
        x = x + 1;
    }
}

/// Spreading gives the same light for two seeds that agree.
pub proof fn lemma_blurred_agree(f: spec_fn(int, int, int) -> int, g: spec_fn(int, int, int) -> int)
    requires
        agree(f, g),
    ensures
        agree(blurred(f), blurred(g)),
{
    lemma_spread_z_agree(f, g);
    lemma_spread_x_agree(spread_z(f), spread_z(g));
    lemma_spread_y_agree(spread_x(spread_z(f)), spread_x(spread_z(g)));
}

/// Spreads light along z, then x, then y.
pub(crate) fn blur(data: &mut [[[u8; 32]; 32]; 32])
    requires
        light_bounded(as_fn(*old(data)), 127),
    ensures
        agree(as_fn(*final(data)), blurred(as_fn(*old(data)))),
{
    let ghost d0 = *data;
    blur_z(data);
    let ghost d1 = *data;
    proof {
        lemma_spread_z_bounded(as_fn(d0), 127);
    }
    blur_x(data);
    let ghost d2 = *data;
    proof {
        lemma_spread_x_agree(as_fn(d1), spread_z(as_fn(d0)));
        lemma_spread_x_bounded(spread_z(as_fn(d0)), 127);
    }
    blur_y(data);
    proof {
        lemma_spread_y_agree(as_fn(d2), spread_x(spread_z(as_fn(d0))));
    }
}

/// Computes the light of a chunk from the light `data` starts with: spread,
/// then halved in each cell that holds a block.
pub(crate) fn finish_light(data: &mut [[[u8; 32]; 32]; 32], blocks: &[[[u8; 32]; 32]; 32], seed: Ghost<spec_fn(int, int, int) -> int>)
    requires
        agree(as_fn(*old(data)), seed@),
        light_bounded(seed@, 127),
    ensures
        forall|x: int, y: int, z: int|
            in_cube(x, y, z) ==> #[trigger] final(data)[x][y][z] as int == light_at(*blocks, seed@, x, y, z),
{
    let ghost d0 = *data;
    blur(data);
    let ghost d1 = *data;
    proof {
        lemma_blurred_agree(as_fn(d0), seed@);
    }
    ambient_occlusion(data, blocks);
    assert forall|x: int, y: int, z: int| in_cube(x, y, z) implies #[trigger] data[x][y][z] as int
        == light_at(*blocks, seed@, x, y, z) by {
        assert(as_fn(d1)(x, y, z) == blurred(as_fn(d0))(x, y, z));
        assert(blurred(as_fn(d0))(x, y, z) == blurred(seed@)(x, y, z));
    }
}


/// How many levels light loses between `i` and `j` along one axis.
pub open spec fn gap(i: int, j: int) -> int {
    if i >= j { i - j } else { j - i }
}

/// How many cells light passes from `(a, b, c)` to `(x, y, z)`, one axis at
/// a time.
pub open spec fn steps(x: int, y: int, z: int, a: int, b: int, c: int) -> int {
    gap(x, a) + gap(y, b) + gap(z, c)
}

/// Spreading along z: the light at `(x, y, z)` is the largest over the cells
/// `(x, y, c)` of their light less `|z - c|`.
proof fn lemma_spread_z_max(f: spec_fn(int, int, int) -> int, x: int, y: int, z: int)
    requires
        0 <= z < 32,
    ensures
        forall|c: int| 0 <= c < 32 ==> spread_z(f)(x, y, z) >= #[trigger] f(x, y, c) - gap(z, c),
        exists|c: int| 0 <= c < 32 && spread_z(f)(x, y, z) == #[trigger] f(x, y, c) - gap(z, c),
{
    let s = z_line(f, x, y);
    lemma_spread_is_max(s, z);
    assert forall|c: int| 0 <= c < 32 implies spread_z(f)(x, y, z) >= #[trigger] f(x, y, c) - gap(z, c) by {
        assert(spread(s, z) >= reach(s, c, z));
    }
    let c = choose|c: int| 0 <= c < s.len() && spread(s, z) == #[trigger] reach(s, c, z);
    assert(spread_z(f)(x, y, z) == f(x, y, c) - gap(z, c));
}

/// Spreading along x: the light at `(x, y, z)` is the largest over the cells
/// `(a, y, z)` of their light less `|x - a|`.
proof fn lemma_spread_x_max(f: spec_fn(int, int, int) -> int, x: int, y: int, z: int)
    requires
        0 <= x < 32,
    ensures
        forall|a: int| 0 <= a < 32 ==> spread_x(f)(x, y, z) >= #[trigger] f(a, y, z) - gap(x, a),
        exists|a: int| 0 <= a < 32 && spread_x(f)(x, y, z) == #[trigger] f(a, y, z) - gap(x, a),
{
    let s = x_line(f, y, z);
    lemma_spread_is_max(s, x);
    assert forall|a: int| 0 <= a < 32 implies spread_x(f)(x, y, z) >= #[trigger] f(a, y, z) - gap(x, a) by {
        assert(spread(s, x) >= reach(s, a, x));
    }
    let a = choose|a: int| 0 <= a < s.len() && spread(s, x) == #[trigger] reach(s, a, x);
    assert(spread_x(f)(x, y, z) == f(a, y, z) - gap(x, a));
}

/// Spreading along y: the light at `(x, y, z)` is the largest over the cells
/// `(x, b, z)` of their light less `|y - b|`.
proof fn lemma_spread_y_max(f: spec_fn(int, int, int) -> int, x: int, y: int, z: int)
    requires
        0 <= y < 32,
    ensures
        forall|b: int| 0 <= b < 32 ==> spread_y(f)(x, y, z) >= #[trigger] f(x, b, z) - gap(y, b),
        exists|b: int| 0 <= b < 32 && spread_y(f)(x, y, z) == #[trigger] f(x, b, z) - gap(y, b),
{
    let s = y_line(f, x, z);
    lemma_spread_is_max(s, y);
    assert forall|b: int| 0 <= b < 32 implies spread_y(f)(x, y, z) >= #[trigger] f(x, b, z) - gap(y, b) by {
        assert(spread(s, y) >= reach(s, b, y));
    }
    let b = choose|b: int| 0 <= b < s.len() && spread(s, y) == #[trigger] reach(s, b, y);
    assert(spread_y(f)(x, y, z) == f(x, b, z) - gap(y, b));
}

/// Light spreads in every direction, losing one level per cell: after
/// spreading, every cell of the chunk has at least the seed light of every
/// other cell less the number of steps between them, and exactly that for
/// some cell.
pub proof fn lemma_blurred_is_max(f: spec_fn(int, int, int) -> int, x: int, y: int, z: int)
    requires
        in_cube(x, y, z),
    ensures
        forall|a: int, b: int, c: int|
            in_cube(a, b, c) ==> blurred(f)(x, y, z) >= #[trigger] f(a, b, c) - steps(x, y, z, a, b, c),
        exists|a: int, b: int, c: int|
            in_cube(a, b, c) && blurred(f)(x, y, z) == #[trigger] f(a, b, c) - steps(x, y, z, a, b, c),
{
    let g1 = spread_z(f);
    let g2 = spread_x(g1);
    lemma_spread_y_max(g2, x, y, z);
    assert forall|a: int, b: int, c: int| in_cube(a, b, c) implies blurred(f)(x, y, z) >= #[trigger] f(a, b, c)
        - steps(x, y, z, a, b, c) by {
        lemma_spread_z_max(f, a, b, z);
        lemma_spread_x_max(g1, x, b, z);
        assert(g1(a, b, z) >= f(a, b, c) - gap(z, c));
        assert(g2(x, b, z) >= g1(a, b, z) - gap(x, a));
        assert(blurred(f)(x, y, z) >= g2(x, b, z) - gap(y, b));
    }
    let b = choose|b: int| 0 <= b < 32 && spread_y(g2)(x, y, z) == #[trigger] g2(x, b, z) - gap(y, b);
    lemma_spread_x_max(g1, x, b, z);
    let a = choose|a: int| 0 <= a < 32 && spread_x(g1)(x, b, z) == #[trigger] g1(a, b, z) - gap(x, a);
    lemma_spread_z_max(f, a, b, z);
    let c = choose|c: int| 0 <= c < 32 && spread_z(f)(a, b, z) == #[trigger] f(a, b, c) - gap(z, c);
    assert(blurred(f)(x, y, z) == f(a, b, c) - steps(x, y, z, a, b, c));
}

/// The computed light of an empty cell: at least the seed light of every
/// cell of the chunk less the number of steps between them (so light passes
/// up and down a column as well as along z and x), and exactly that for
/// some cell. A cell that holds a block gets half of that, rounded down.
pub proof fn lemma_light_reaches(blocks: [[[u8; 32]; 32]; 32], seed: spec_fn(int, int, int) -> int, x: int, y: int, z: int)
    requires
        in_cube(x, y, z),
    ensures
        blocks[x][y][z] == 0 ==> forall|a: int, b: int, c: int|
            in_cube(a, b, c) ==> light_at(blocks, seed, x, y, z) >= #[trigger] seed(a, b, c) - steps(x, y, z, a, b, c),
        blocks[x][y][z] == 0 ==> exists|a: int, b: int, c: int|
            in_cube(a, b, c) && light_at(blocks, seed, x, y, z) == #[trigger] seed(a, b, c) - steps(x, y, z, a, b, c),
        blocks[x][y][z] != 0 ==> exists|a: int, b: int, c: int|
            in_cube(a, b, c) && light_at(blocks, seed, x, y, z) == (#[trigger] seed(a, b, c) - steps(x, y, z, a, b, c)) / 2
                && forall|a2: int, b2: int, c2: int|
                in_cube(a2, b2, c2) ==> seed(a, b, c) - steps(x, y, z, a, b, c) >= #[trigger] seed(a2, b2, c2) - steps(
                    x,
                    y,
                    z,
                    a2,
                    b2,
                    c2,
                ),
{
    lemma_blurred_is_max(seed, x, y, z);
}
} // verus!
