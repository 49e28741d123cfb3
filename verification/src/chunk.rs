//! The data of one chunk: its blocks, fluids and light, and the shapes that
//! can be filled into it.
use vstd::prelude::*;
use crate::pos::IVec3;

pub mod block;
pub mod fluid;
pub mod spread;
pub mod light;
pub mod light_data;
pub mod open_sky;
pub mod blit;

verus! {

/// Whether `(x, y, z)` indexes a cell of a chunk.
pub open spec fn in_cube(x: int, y: int, z: int) -> bool {
    0 <= x < 32 && 0 <= y < 32 && 0 <= z < 32
}

/// Whether the cell `(x, y, z)` lies in the sphere of `radius` around `pos`:
/// its offset `c` from `pos` has every coordinate in `-radius..radius` and
/// `c.x² + c.y² + c.z² < radius²`.
pub open spec fn in_sphere(pos: IVec3, radius: int, x: int, y: int, z: int) -> bool {
    let cx = x - pos.x;
    let cy = y - pos.y;
    let cz = z - pos.z;
    &&& -radius <= cx < radius
    &&& -radius <= cy < radius
    &&& -radius <= cz < radius
    &&& cx * cx + cy * cy + cz * cz < radius * radius
}

/// Whether a sphere can be filled into a chunk: `radius²` fits an `i32`, and
/// every cell of the sphere lies inside the chunk.
pub open spec fn sphere_fits(pos: IVec3, radius: int) -> bool {
    &&& radius * radius <= i32::MAX
    &&& radius > 0 ==> {
        &&& pos.x - radius + 1 >= 0 && pos.x + radius - 1 < 32
        &&& pos.y - radius + 1 >= 0 && pos.y + radius - 1 < 32
        &&& pos.z - radius + 1 >= 0 && pos.z + radius - 1 < 32
    }
}

/// Whether the cell `(x, y, z)` lies in the box that starts at `pos` and
/// extends `size` cells along each axis.
pub open spec fn in_box(pos: IVec3, size: IVec3, x: int, y: int, z: int) -> bool {
    &&& pos.x <= x < pos.x + size.x
    &&& pos.y <= y < pos.y + size.y
    &&& pos.z <= z < pos.z + size.z
}

/// Whether a box can be filled into a chunk: it is empty along some axis, or
/// it lies inside the chunk.
pub open spec fn box_fits(pos: IVec3, size: IVec3) -> bool {
    ||| size.x <= 0
    ||| size.y <= 0
    ||| size.z <= 0
    ||| {
        &&& 0 <= pos.x && pos.x + size.x <= 32
        &&& 0 <= pos.y && pos.y + size.y <= 32
        &&& 0 <= pos.z && pos.z + size.z <= 32
    }
}

/// Whether the cell `(x, y, z)` lies in the pillar above `pos` that ends
/// below `goal_y`, cut to the chunk's height.
pub open spec fn in_pillar(pos: IVec3, goal_y: int, x: int, y: int, z: int) -> bool {
    x == pos.x && z == pos.z && pos.y <= y < goal_y && 0 <= y < 32
}

/// Whether a pillar can be filled into a chunk: its column lies inside the
/// chunk, or it holds no cell.
pub open spec fn pillar_fits(pos: IVec3, goal_y: int) -> bool {
    (0 <= pos.x < 32 && 0 <= pos.z < 32) || vstd::math::max(pos.y as int, 0) >= vstd::math::min(
        goal_y,
        32,
    )
}

/// `new` is `old` with every cell for which `inside` holds set to `block`.
pub open spec fn filled(
    old: [[[u8; 32]; 32]; 32],
    new: [[[u8; 32]; 32]; 32],
    block: u8,
    inside: spec_fn(int, int, int) -> bool,
) -> bool {
    forall|x: int, y: int, z: int|
        in_cube(x, y, z) ==> #[trigger] new[x][y][z] == if inside(x, y, z) {
            block
        } else {
            old[x][y][z]
        }
}

/// A chunk with every cell 0.
pub fn zeroed() -> (d: [[[u8; 32]; 32]; 32])
    ensures
        forall|x: int, y: int, z: int| in_cube(x, y, z) ==> #[trigger] d[x][y][z] == 0,
{
    [[[0u8; 32]; 32]; 32]
}

} // verus!

verus! {

/// Facts about the squares that the sphere fill computes.
proof fn lemma_sphere_offset(c: int, r: int)
    requires
        -r <= c < r,
        r <= 16,
    ensures
        0 <= c * c <= 256,
        c == -r ==> c * c == r * r,
{
    assert(0 <= c * c <= 256) by (nonlinear_arith)
        requires
            -16 <= c <= 16,
    ;
    if c == -r {
        assert(c * c == r * r) by (nonlinear_arith)
            requires
                c == -r,
        ;
    }
}

/// Sets every cell of the sphere of `radius` around `pos` to `block`.
pub fn fill_sphere(data: &mut [[[u8; 32]; 32]; 32], block: u8, pos: IVec3, radius: i32)
    requires
        sphere_fits(pos, radius as int),
    ensures
        filled(
            *old(data),
            *final(data),
            block,
            |x: int, y: int, z: int| in_sphere(pos, radius as int, x, y, z),
        ),
{
    let ghost d0 = *data;
    assert(radius > i32::MIN && radius * radius >= 0) by (nonlinear_arith)
        requires
            radius * radius <= i32::MAX,
    ;
    let rr = radius * radius;
    let mut cx: i32 = -radius;
    while cx < radius
        invariant
            sphere_fits(pos, radius as int),
            rr == radius * radius,
            -radius <= cx,
            cx <= radius || cx == -radius,
            forall|x: int, y: int, z: int|
                in_cube(x, y, z) ==> #[trigger] data[x][y][z] == if in_sphere(
                    pos,
                    radius as int,
                    x,
                    y,
                    z,
                ) && x - pos.x < cx {
                    block
                } else {
                    d0[x][y][z]
                },
        decreases radius - cx,
    {
        let mut cy: i32 = -radius;
        while cy < radius
            invariant
                sphere_fits(pos, radius as int),
                rr == radius * radius,
                -radius <= cx < radius,
                -radius <= cy <= radius,
                forall|x: int, y: int, z: int|
                    in_cube(x, y, z) ==> #[trigger] data[x][y][z] == if in_sphere(
                        pos,
                        radius as int,
                        x,
                        y,
                        z,
                    ) && (x - pos.x < cx || (x - pos.x == cx && y - pos.y < cy)) {
                        block
                    } else {
                        d0[x][y][z]
                    },
            decreases radius - cy,
        {
            let mut cz: i32 = -radius;
            while cz < radius
                invariant
                    sphere_fits(pos, radius as int),
                    rr == radius * radius,
                    -radius <= cx < radius,
                    -radius <= cy < radius,
                    -radius <= cz <= radius,
                    forall|x: int, y: int, z: int|
                        in_cube(x, y, z) ==> #[trigger] data[x][y][z] == if in_sphere(
                            pos,
                            radius as int,
                            x,
                            y,
                            z,
                        ) && (x - pos.x < cx || (x - pos.x == cx && y - pos.y < cy) || (x - pos.x
                            == cx && y - pos.y == cy && z - pos.z < cz)) {
                            block
                        } else {
                            d0[x][y][z]
                        },
                decreases radius - cz,
            {
                proof {
                    lemma_sphere_offset(cx as int, radius as int);
                    lemma_sphere_offset(cy as int, radius as int);
                    lemma_sphere_offset(cz as int, radius as int);
                }
                let dist = (cx * cx) + (cy * cy) + (cz * cz);
                if dist < rr {
                    let x = (pos.x + cx) as usize;
                    let y = (pos.y + cy) as usize;
                    let z = (pos.z + cz) as usize;
                    data[x][y][z] = block;
                }
                cz = cz + 1;
            }
            cy = cy + 1;
        }
        cx = cx + 1;
    }
}

/// Sets every cell of the box that starts at `pos` and extends `size` cells
/// along each axis to `block`.
pub fn fill_box(data: &mut [[[u8; 32]; 32]; 32], block: u8, pos: IVec3, size: IVec3)
    requires
        box_fits(pos, size),
    ensures
        filled(*old(data), *final(data), block, |x: int, y: int, z: int| in_box(pos, size, x, y, z)),
{
    let ghost d0 = *data;
    let w = size.x;
    let h = size.y;
    let d = size.z;
    let mut cx: i32 = 0;
    while cx < w
        invariant
            box_fits(pos, size),
            w == size.x && h == size.y && d == size.z,
            0 <= cx,
            cx <= w || cx == 0,
            forall|x: int, y: int, z: int|
                in_cube(x, y, z) ==> #[trigger] data[x][y][z] == if in_box(pos, size, x, y, z) && x
                    - pos.x < cx {
                    block
                } else {
                    d0[x][y][z]
                },
        decreases w - cx,
    {
        let mut cy: i32 = 0;
        while cy < h
            invariant
                box_fits(pos, size),
                w == size.x && h == size.y && d == size.z,
                0 <= cx < w,
                0 <= cy,
                cy <= h || cy == 0,
                forall|x: int, y: int, z: int|
                    in_cube(x, y, z) ==> #[trigger] data[x][y][z] == if in_box(pos, size, x, y, z) && (
                    x - pos.x < cx || (x - pos.x == cx && y - pos.y < cy)) {
                        block
                    } else {
                        d0[x][y][z]
                    },
            decreases h - cy,
        {
            let mut cz: i32 = 0;
            while cz < d
                invariant
                    box_fits(pos, size),
                    w == size.x && h == size.y && d == size.z,
                    0 <= cx < w,
                    0 <= cy < h,
                    0 <= cz,
                    cz <= d || cz == 0,
                    forall|x: int, y: int, z: int|
                        in_cube(x, y, z) ==> #[trigger] data[x][y][z] == if in_box(pos, size, x, y, z)
                            && (x - pos.x < cx || (x - pos.x == cx && y - pos.y < cy) || (x - pos.x
                            == cx && y - pos.y == cy && z - pos.z < cz)) {
                            block
                        } else {
                            d0[x][y][z]
                        },
                decreases d - cz,
            {
                let x = (pos.x + cx) as usize;
                let y = (pos.y + cy) as usize;
                let z = (pos.z + cz) as usize;
                data[x][y][z] = block;
                cz = cz + 1;
            }
            cy = cy + 1;
        }
        cx = cx + 1;
    }
}

/// Sets the cells of the column at `pos.x`, `pos.z` from height `pos.y` up to,
/// but not including, `goal_y` to `block`, cut to the chunk's height.
pub fn fill_pillar(data: &mut [[[u8; 32]; 32]; 32], block: u8, pos: IVec3, goal_y: i32)
    requires
        pillar_fits(pos, goal_y as int),
    ensures
        filled(
            *old(data),
            *final(data),
            block,
            |x: int, y: int, z: int| in_pillar(pos, goal_y as int, x, y, z),
        ),
{
    let ghost d0 = *data;
    let start = if pos.y > 0 {
        pos.y
    } else {
        0
    };
    let goal_y = if goal_y < 32 {
        goal_y
    } else {
        32
    };
    let mut y: i32 = start;
    while y < goal_y
        invariant
            pillar_fits(pos, goal_y as int) || start >= goal_y,
            start == vstd::math::max(pos.y as int, 0),
            goal_y <= 32,
            start <= y,
            y <= goal_y || y == start,
            forall|a: int, b: int, c: int|
                in_cube(a, b, c) ==> #[trigger] data[a][b][c] == if a == pos.x && c == pos.z
                    && start <= b < y {
                    block
                } else {
                    d0[a][b][c]
                },
        decreases goal_y - y,
    {
        data[pos.x as usize][y as usize][pos.z as usize] = block;
        y = y + 1;
    }
}

} // verus!
