//! The faces of a chunk's blocks, side by side: for each slice of the chunk
//! the visible faces of one side are gathered into a plane, merged into
//! rectangles, and each rectangle becomes one quad of the block mesh.
use vstd::prelude::*;
use crate::block_type::BlockType;
use crate::chunk::block::ChunkBlockData;
use crate::chunk::blit::in_buffer;
use crate::chunk::in_cube;
use crate::chunk::light_data::ChunkLightData;
use crate::meshgen::{
    calc_block_data, calc_light_data, calc_side_cache, corner_light, light_front_back, light_left_right,
    light_top_bottom, partial_sum, side_starts, sides_of,
};
use crate::plane::{
    cell, lemma_optimized_empty, lemma_optimized_tiles, optimized, single_faces, tiles, unit_faces,
    within_plane, Cells, PlaneEntry,
};
use crate::side::Side;
use crate::vertex::{face_vertices, BlockVertex};

verus! {

/// The position in the chunk of cell `(a, b)` of slice `s` of the planes of
/// faces on `side`: slices run along z for front and back (rows along y,
/// columns along x), along y for top and bottom (rows along z, columns
/// along x), and along x for left and right (rows along y, columns along z).
pub open spec fn face_pos(side: Side, s: int, a: int, b: int) -> (int, int, int) {
    match side {
        Side::Front | Side::Back => (b, a, s),
        Side::Top | Side::Bottom => (b, s, a),
        Side::Left | Side::Right => (s, a, b),
    }
}

/// The bit of the faces on `side` in a cell of the side cache.
pub open spec fn side_bit(side: Side) -> u8 {
    match side {
        Side::Front => 1,
        Side::Back => 2,
        Side::Top => 4,
        Side::Bottom => 8,
        Side::Left => 16,
        Side::Right => 32,
    }
}

/// The extent of the box whose face on `side` is a rectangle `w` columns
/// wide and `h` rows high.
pub open spec fn face_size(side: Side, w: u8, h: u8) -> (u8, u8, u8) {
    match side {
        Side::Front | Side::Back => (w, h, 1u8),
        Side::Top | Side::Bottom => (w, 1u8, h),
        Side::Left | Side::Right => (1u8, h, w),
    }
}

/// The corner light of a front or back face at `[x][y][z]` of the light buffer.
pub open spec fn fb(l: [[[u8; 34]; 34]; 34], x: int, y: int, z: int) -> u16 {
    corner_light(l[x][y][z], l[x][y + 1][z], l[x + 1][y][z], l[x + 1][y + 1][z])
}

/// The corner light of a top or bottom face at `[x][y][z]` of the light buffer.
pub open spec fn tb(l: [[[u8; 34]; 34]; 34], x: int, y: int, z: int) -> u16 {
    corner_light(l[x][y][z], l[x][y][z + 1], l[x + 1][y][z], l[x + 1][y][z + 1])
}

/// The corner light of a left or right face at `[x][y][z]` of the light buffer.
pub open spec fn lr(l: [[[u8; 34]; 34]; 34], x: int, y: int, z: int) -> u16 {
    corner_light(l[x][y][z], l[x][y + 1][z], l[x][y][z + 1], l[x][y + 1][z + 1])
}

/// Four corner lights packed into the nibbles of a `u16`, the first lowest.
pub open spec fn pack(l0: u16, l1: u16, l2: u16, l3: u16) -> u16 {
    l0 | (l1 << 4u16) | (l2 << 8u16) | (l3 << 12u16)
}

/// The packed corner lights of the face on `side` of the block at `(x, y, z)`
/// of the chunk, read from the light buffer around the chunk.
pub open spec fn face_light(side: Side, l: [[[u8; 34]; 34]; 34], x: int, y: int, z: int) -> u16 {
    match side {
        Side::Front => pack(fb(l, x, y, z + 2), fb(l, x + 1, y, z + 2), fb(l, x + 1, y + 1, z + 2), fb(l, x, y + 1, z + 2)),
        Side::Back => pack(fb(l, x, y, z), fb(l, x, y + 1, z), fb(l, x + 1, y + 1, z), fb(l, x + 1, y, z)),
        Side::Top => pack(tb(l, x, y + 2, z), tb(l, x, y + 2, z + 1), tb(l, x + 1, y + 2, z + 1), tb(l, x + 1, y + 2, z)),
        Side::Bottom => pack(tb(l, x, y, z), tb(l, x + 1, y, z), tb(l, x + 1, y, z + 1), tb(l, x, y, z + 1)),
        Side::Left => pack(lr(l, x, y, z), lr(l, x, y, z + 1), lr(l, x, y + 1, z + 1), lr(l, x, y + 1, z)),
        Side::Right => pack(lr(l, x + 2, y, z), lr(l, x + 2, y + 1, z), lr(l, x + 2, y + 1, z + 1), lr(l, x + 2, y, z + 1)),
    }
}

/// Whether the face on `side` of cell `(a, b)` of slice `s` is visible.
pub open spec fn visible(side: Side, sides: [[[u8; 32]; 32]; 32], s: int, a: int, b: int) -> bool {
    let (x, y, z) = face_pos(side, s, a, b);
    sides[x][y][z] & side_bit(side) != 0
}

/// The plane of slice `s` for `side` with the first `k` cells (in row-major
/// order) filled: a visible face is a single face with the block of its
/// cell and its corner lights; every other cell is empty.
pub open spec fn slice_cells_upto(
    side: Side,
    blocks: [[[u8; 34]; 34]; 34],
    lights: [[[u8; 34]; 34]; 34],
    sides: [[[u8; 32]; 32]; 32],
    s: int,
    k: int,
) -> Cells {
    let vis = |i: int| i < k && visible(side, sides, s, i / 32, i % 32);
    let pos = |i: int| face_pos(side, s, i / 32, i % 32);
    (
        Seq::new(1024, |i: int| if vis(i) { 1u8 } else { 0u8 }),
        Seq::new(1024, |i: int| if vis(i) { 1u8 } else { 0u8 }),
        Seq::new(1024, |i: int| if vis(i) { blocks[pos(i).0 + 1][pos(i).1 + 1][pos(i).2 + 1] } else { 0u8 }),
        Seq::new(1024, |i: int| if vis(i) { face_light(side, lights, pos(i).0, pos(i).1, pos(i).2) } else { 0u16 }),
    )
}

/// The plane of the visible faces on `side` in slice `s`.
pub open spec fn slice_cells(
    side: Side,
    blocks: [[[u8; 34]; 34]; 34],
    lights: [[[u8; 34]; 34]; 34],
    sides: [[[u8; 32]; 32]; 32],
    s: int,
) -> Cells {
    slice_cells_upto(side, blocks, lights, sides, s, 1024)
}

/// The quad of the rectangle that starts at cell `(a, b)` of slice `s`,
/// textured with its block's texture for `side`; nothing for an empty cell.
pub open spec fn cell_quad(side: Side, types: Seq<BlockType>, c: Cells, s: int, a: int, b: int) -> Seq<BlockVertex> {
    let i = cell(a, b);
    if c.2[i] == 0 {
        Seq::empty()
    } else {
        let (x, y, z) = face_pos(side, s, a, b);
        face_vertices(
            side,
            (x as u8, y as u8, z as u8),
            face_size(side, c.0[i], c.1[i]),
            types[c.2[i] as int].tex_spec()[side.index() as int],
            c.3[i],
        )
    }
}

/// The quads of the first `n` cells of row `a`.
pub open spec fn row_quads(side: Side, types: Seq<BlockType>, c: Cells, s: int, a: int, n: int) -> Seq<BlockVertex>
    decreases n,
{
    if n <= 0 {
        Seq::empty()
    } else {
        row_quads(side, types, c, s, a, n - 1) + cell_quad(side, types, c, s, a, n - 1)
    }
}

/// The quads of the first `m` rows of a plane.
pub open spec fn plane_quads(side: Side, types: Seq<BlockType>, c: Cells, s: int, m: int) -> Seq<BlockVertex>
    decreases m,
{
    if m <= 0 {
        Seq::empty()
    } else {
        plane_quads(side, types, c, s, m - 1) + row_quads(side, types, c, s, m - 1, 32)
    }
}

/// The quads of the faces on `side` of the first `n` slices: each slice's
/// plane merged into rectangles, row by row.
pub open spec fn side_quads(
    side: Side,
    types: Seq<BlockType>,
    blocks: [[[u8; 34]; 34]; 34],
    lights: [[[u8; 34]; 34]; 34],
    sides: [[[u8; 32]; 32]; 32],
    n: int,
) -> Seq<BlockVertex>
    decreases n,
{
    if n <= 0 {
        Seq::empty()
    } else {
        side_quads(side, types, blocks, lights, sides, n - 1)
            + plane_quads(side, types, optimized(slice_cells(side, blocks, lights, sides, n - 1)), n - 1, 32)
    }
}

/// Whether every visible face on `side` belongs to a block with a type.
pub open spec fn types_cover(
    side: Side,
    types: Seq<BlockType>,
    blocks: [[[u8; 34]; 34]; 34],
    sides: [[[u8; 32]; 32]; 32],
) -> bool {
    forall|x: int, y: int, z: int|
        0 <= x < 32 && 0 <= y < 32 && 0 <= z < 32 && #[trigger] sides[x][y][z] & side_bit(side) != 0
            ==> blocks[x + 1][y + 1][z + 1] < types.len()
}

} // verus!

verus! {

/// `(a * 32 + b) / 32 == a` and `(a * 32 + b) % 32 == b`.
proof fn lemma_cell_split(a: int, b: int)
    requires
        0 <= a,
        0 <= b < 32,
    ensures
        cell(a, b) / 32 == a,
        cell(a, b) % 32 == b,
{
    assert((a * 32 + b) / 32 == a) by (nonlinear_arith)
        requires 0 <= a, 0 <= b < 32;
    assert((a * 32 + b) % 32 == b) by (nonlinear_arith)
        requires 0 <= a, 0 <= b < 32;
}

/// The position in the chunk of cell `(a, b)` of slice `s` for `side`.
fn face_pos_exec(side: Side, s: usize, a: usize, b: usize) -> (r: (usize, usize, usize))
    ensures
        r.0 == face_pos(side, s as int, a as int, b as int).0,
        r.1 == face_pos(side, s as int, a as int, b as int).1,
        r.2 == face_pos(side, s as int, a as int, b as int).2,
{
    match side {
        Side::Front | Side::Back => (b, a, s),
        Side::Top | Side::Bottom => (b, s, a),
        Side::Left | Side::Right => (s, a, b),
    }
}

/// The bit of the faces on `side` in a cell of the side cache.
fn side_bit_exec(side: Side) -> (r: u8)
    ensures
        r == side_bit(side),
{
    match side {
        Side::Front => 1,
        Side::Back => 2,
        Side::Top => 4,
        Side::Bottom => 8,
        Side::Left => 16,
        Side::Right => 32,
    }
}

/// The packed corner lights of the face on `side` of the block at `(x, y, z)`.
fn face_light_exec(side: Side, l: &[[[u8; 34]; 34]; 34], x: usize, y: usize, z: usize) -> (r: u16)
    requires
        x < 32 && y < 32 && z < 32,
    ensures
        r == face_light(side, *l, x as int, y as int, z as int),
{
    match side {
        Side::Front => light_front_back(l, x, y, z + 2) | (light_front_back(l, x + 1, y, z + 2) << 4u16)
            | (light_front_back(l, x + 1, y + 1, z + 2) << 8u16) | (light_front_back(l, x, y + 1, z + 2) << 12u16),
        Side::Back => light_front_back(l, x, y, z) | (light_front_back(l, x, y + 1, z) << 4u16)
            | (light_front_back(l, x + 1, y + 1, z) << 8u16) | (light_front_back(l, x + 1, y, z) << 12u16),
        Side::Top => light_top_bottom(l, x, y + 2, z) | (light_top_bottom(l, x, y + 2, z + 1) << 4u16)
            | (light_top_bottom(l, x + 1, y + 2, z + 1) << 8u16) | (light_top_bottom(l, x + 1, y + 2, z) << 12u16),
        Side::Bottom => light_top_bottom(l, x, y, z) | (light_top_bottom(l, x + 1, y, z) << 4u16)
            | (light_top_bottom(l, x + 1, y, z + 1) << 8u16) | (light_top_bottom(l, x, y, z + 1) << 12u16),
        Side::Left => light_left_right(l, x, y, z) | (light_left_right(l, x, y, z + 1) << 4u16)
            | (light_left_right(l, x, y + 1, z + 1) << 8u16) | (light_left_right(l, x, y + 1, z) << 12u16),
        Side::Right => light_left_right(l, x + 2, y, z) | (light_left_right(l, x + 2, y + 1, z) << 4u16)
            | (light_left_right(l, x + 2, y + 1, z + 1) << 8u16) | (light_left_right(l, x + 2, y, z + 1) << 12u16),
    }
}

/// Gathers the visible faces on `side` of slice `s` into a plane of single
/// faces, and counts them.
fn fill_plane(
    side: Side,
    s: usize,
    blocks: &[[[u8; 34]; 34]; 34],
    lights: &[[[u8; 34]; 34]; 34],
    sides: &[[[u8; 32]; 32]; 32],
) -> (r: (PlaneEntry, usize))
    requires
        s < 32,
    ensures
        r.0.cells() == slice_cells(side, *blocks, *lights, *sides, s as int),
        r.1 == 0 ==> forall|i: int| 0 <= i < 1024 ==> #[trigger] r.0.cells().2[i] == 0,
{
    let mut plane = PlaneEntry::new();
    let mut found: usize = 0;
    let bit = side_bit_exec(side);
    let mut a: usize = 0;
    proof {
        assert(plane.cells().0 =~= slice_cells_upto(side, *blocks, *lights, *sides, s as int, 0).0);
        assert(plane.cells().1 =~= slice_cells_upto(side, *blocks, *lights, *sides, s as int, 0).1);
        assert(plane.cells().2 =~= slice_cells_upto(side, *blocks, *lights, *sides, s as int, 0).2);
        assert(plane.cells().3 =~= slice_cells_upto(side, *blocks, *lights, *sides, s as int, 0).3);
    }
    while a < 32
        invariant
            a <= 32,
            s < 32,
            bit == side_bit(side),
            found <= a * 32,
            plane.cells() == slice_cells_upto(side, *blocks, *lights, *sides, s as int, a * 32),
            found == 0 ==> forall|i: int| 0 <= i < 1024 ==> #[trigger] plane.cells().2[i] == 0,
        decreases 32 - a,
    {
        let mut b: usize = 0;
        while b < 32
            invariant
                a < 32,
                b <= 32,
                s < 32,
                bit == side_bit(side),
                found <= a * 32 + b,
                plane.cells() == slice_cells_upto(side, *blocks, *lights, *sides, s as int, a * 32 + b),
                found == 0 ==> forall|i: int| 0 <= i < 1024 ==> #[trigger] plane.cells().2[i] == 0,
            decreases 32 - b,
        {
            let ghost k = a * 32 + b;
            proof {
                lemma_cell_split(a as int, b as int);
            }
            let (x, y, z) = face_pos_exec(side, s, a, b);
            if sides[x][y][z] & bit != 0 {
                found = found + 1;
                let i = a * 32 + b;
                plane.width[i] = 1;
                plane.height[i] = 1;
                plane.block[i] = blocks[x + 1][y + 1][z + 1];
                plane.light[i] = face_light_exec(side, lights, x, y, z);
            }
            proof {
                let next = slice_cells_upto(side, *blocks, *lights, *sides, s as int, k + 1);
                assert(plane.cells().0 =~= next.0);
                assert(plane.cells().1 =~= next.1);
                assert(plane.cells().2 =~= next.2);
                assert(plane.cells().3 =~= next.3);
            }
            b = b + 1;
        }
        a = a + 1;
    }
    (plane, found)
}

} // verus!

verus! {

/// The quads of a slice lose and duplicate no face: the rectangles of the
/// merged plane of slice `s` cover each visible face on `side` exactly once,
/// each with the block and light of the faces it covers.
pub proof fn lemma_slice_tiles(
    side: Side,
    blocks: [[[u8; 34]; 34]; 34],
    lights: [[[u8; 34]; 34]; 34],
    sides: [[[u8; 32]; 32]; 32],
    s: int,
)
    ensures
        tiles(
            optimized(slice_cells(side, blocks, lights, sides, s)),
            slice_cells(side, blocks, lights, sides, s),
        ),
{
    let c = slice_cells(side, blocks, lights, sides, s);
    assert(unit_faces(c));
    lemma_optimized_tiles(c);
}

/// Whether every block of a plane has a type.
pub open spec fn blocks_typed(c: Cells, types: Seq<BlockType>) -> bool {
    forall|i: int| 0 <= i < 1024 ==> #[trigger] c.2[i] < types.len() || c.2[i] == 0
}

/// Adds the quads of the rectangles of `plane`, a plane of slice `s` of the
/// faces on `side`, row by row.
fn emit_plane(
    side: Side,
    s: usize,
    plane: &PlaneEntry,
    types: &Vec<BlockType>,
    vertices: &mut Vec<BlockVertex>,
)
    requires
        s < 32,
        within_plane(plane.cells()),
        blocks_typed(plane.cells(), types@),
    ensures
        final(vertices)@ == old(vertices)@ + plane_quads(side, types@, plane.cells(), s as int, 32),
{
    let ghost c = plane.cells();
    let mut a: usize = 0;
    while a < 32
        invariant
            a <= 32,
            s < 32,
            c == plane.cells(),
            within_plane(c),
            blocks_typed(c, types@),
            vertices@ == old(vertices)@ + plane_quads(side, types@, c, s as int, a as int),
        decreases 32 - a,
    {
        let mut b: usize = 0;
        while b < 32
            invariant
                a < 32,
                b <= 32,
                s < 32,
                c == plane.cells(),
                within_plane(c),
                blocks_typed(c, types@),
                vertices@ == old(vertices)@ + plane_quads(side, types@, c, s as int, a as int)
                    + row_quads(side, types@, c, s as int, a as int, b as int),
            decreases 32 - b,
        {
            let i = a * 32 + b;
            proof {
                assert(i == cell(a as int, b as int));
                assert(c.1[cell(a as int, b as int)] <= 32 - a && c.0[cell(a as int, b as int)] <= 32 - b);
                assert(c.2[i as int] < types@.len() || c.2[i as int] == 0);
            }
            let ghost before = vertices@;
            if plane.block[i] != 0 {
                let (x, y, z) = face_pos_exec(side, s, a, b);
                let pos = (x as u8, y as u8, z as u8);
                let w = plane.width[i];
                let h = plane.height[i];
                let light = plane.light[i];
                let bt = &types[plane.block[i] as usize];
                match side {
                    Side::Front => BlockVertex::add_front(vertices, pos, (w, h, 1), bt.tex_front(), light),
                    Side::Back => BlockVertex::add_back(vertices, pos, (w, h, 1), bt.tex_back(), light),
                    Side::Top => BlockVertex::add_top(vertices, pos, (w, 1, h), bt.tex_top(), light),
                    Side::Bottom => BlockVertex::add_bottom(vertices, pos, (w, 1, h), bt.tex_bottom(), light),
                    Side::Left => BlockVertex::add_left(vertices, pos, (1, h, w), bt.tex_left(), light),
                    Side::Right => BlockVertex::add_right(vertices, pos, (1, h, w), bt.tex_right(), light),
                }
            }
            assert(vertices@ == before + cell_quad(side, types@, c, s as int, a as int, b as int));
            b = b + 1;
        }
        a = a + 1;
    }
}

/// Adds the quads of every face on `side` that can be seen, slice by slice,
/// and gives the number of quads added.
fn update_side(
    side: Side,
    vertices: &mut Vec<BlockVertex>,
    types: &Vec<BlockType>,
    blocks: &[[[u8; 34]; 34]; 34],
    lights: &[[[u8; 34]; 34]; 34],
    sides: &[[[u8; 32]; 32]; 32],
) -> (r: usize)
    requires
        types_cover(side, types@, *blocks, *sides),
    ensures
        final(vertices)@ == old(vertices)@ + side_quads(side, types@, *blocks, *lights, *sides, 32),
        r == (final(vertices)@.len() - old(vertices)@.len()) / 4,
{
    let start = vertices.len();
    let mut s: usize = 0;
    while s < 32
        invariant
            s <= 32,
            start == old(vertices)@.len(),
            types_cover(side, types@, *blocks, *sides),
            vertices@ == old(vertices)@ + side_quads(side, types@, *blocks, *lights, *sides, s as int),
        decreases 32 - s,
    {
        let (mut plane, found) = fill_plane(side, s, blocks, lights, sides);
        let ghost c = plane.cells();
        if found != 0 {
            proof {
                assert forall|i: int| 0 <= i < 1024 implies #[trigger] c.2[i] < types@.len() || c.2[i] == 0 by {
                    lemma_cell_split(i / 32, i % 32);
                    let p = face_pos(side, s as int, i / 32, i % 32);
                    if c.2[i] != 0 {
                        assert(sides[p.0][p.1][p.2] & side_bit(side) != 0);
                    }
                }
            }
            plane.optimize();
            emit_plane(side, s, &plane, types, vertices);
        } else {
            proof {
                lemma_optimized_empty(c);
                lemma_plane_quads_empty(side, types@, c, s as int, 32);
            }
        }
        s = s + 1;
    }
    (vertices.len() - start) / 4
}

/// A plane without blocks has no quads.
proof fn lemma_plane_quads_empty(side: Side, types: Seq<BlockType>, c: Cells, s: int, m: int)
    requires
        c.2.len() == 1024,
        0 <= m <= 32,
        forall|i: int| 0 <= i < 1024 ==> #[trigger] c.2[i] == 0,
    ensures
        plane_quads(side, types, c, s, m) == Seq::<BlockVertex>::empty(),
    decreases m,
{
    if m > 0 {
        lemma_plane_quads_empty(side, types, c, s, m - 1);
        lemma_row_quads_empty(side, types, c, s, m - 1, 32);
    }
}

proof fn lemma_row_quads_empty(side: Side, types: Seq<BlockType>, c: Cells, s: int, a: int, n: int)
    requires
        c.2.len() == 1024,
        0 <= a < 32,
        0 <= n <= 32,
        forall|i: int| 0 <= i < 1024 ==> #[trigger] c.2[i] == 0,
    ensures
        row_quads(side, types, c, s, a, n) == Seq::<BlockVertex>::empty(),
    decreases n,
{
    if n > 0 {
        lemma_row_quads_empty(side, types, c, s, a, n - 1);
        assert(c.2[cell(a, n - 1)] == 0);
    }
}

} // verus!

verus! {

/// A side's quads are four vertices each; a cell has at most one.
proof fn lemma_cell_quad_len(side: Side, types: Seq<BlockType>, c: Cells, s: int, a: int, b: int)
    ensures
        cell_quad(side, types, c, s, a, b).len() == 0 || cell_quad(side, types, c, s, a, b).len() == 4,
{
}

proof fn lemma_row_quads_len(side: Side, types: Seq<BlockType>, c: Cells, s: int, a: int, n: int)
    requires
        0 <= n,
    ensures
        row_quads(side, types, c, s, a, n).len() <= 4 * n,
        row_quads(side, types, c, s, a, n).len() % 4 == 0,
    decreases n,
{
    if n > 0 {
        lemma_row_quads_len(side, types, c, s, a, n - 1);
        lemma_cell_quad_len(side, types, c, s, a, n - 1);
    }
}

proof fn lemma_plane_quads_len(side: Side, types: Seq<BlockType>, c: Cells, s: int, m: int)
    requires
        0 <= m,
    ensures
        plane_quads(side, types, c, s, m).len() <= 128 * m,
        plane_quads(side, types, c, s, m).len() % 4 == 0,
    decreases m,
{
    if m > 0 {
        lemma_plane_quads_len(side, types, c, s, m - 1);
        lemma_row_quads_len(side, types, c, s, m - 1, 32);
    }
}

/// The faces on one side of a chunk give at most 4096 vertices per slice,
/// four per quad.
pub proof fn lemma_side_quads_len(
    side: Side,
    types: Seq<BlockType>,
    blocks: [[[u8; 34]; 34]; 34],
    lights: [[[u8; 34]; 34]; 34],
    sides: [[[u8; 32]; 32]; 32],
    n: int,
)
    requires
        0 <= n,
    ensures
        side_quads(side, types, blocks, lights, sides, n).len() <= 4096 * n,
        side_quads(side, types, blocks, lights, sides, n).len() % 4 == 0,
    decreases n,
{
    if n > 0 {
        lemma_side_quads_len(side, types, blocks, lights, sides, n - 1);
        lemma_plane_quads_len(side, types, optimized(slice_cells(side, blocks, lights, sides, n - 1)), n - 1, 32);
    }
}

/// Adds the quads of the visible front faces (facing +z) of the chunk.
fn update_front(
    vertices: &mut Vec<BlockVertex>,
    types: &Vec<BlockType>,
    data: (&[[[u8; 34]; 34]; 34], &[[[u8; 34]; 34]; 34], &[[[u8; 32]; 32]; 32]),
) -> (r: usize)
    requires
        types_cover(Side::Front, types@, *data.0, *data.2),
    ensures
        final(vertices)@ == old(vertices)@ + side_quads(Side::Front, types@, *data.0, *data.1, *data.2, 32),
        r == (final(vertices)@.len() - old(vertices)@.len()) / 4,
{
    update_side(Side::Front, vertices, types, data.0, data.1, data.2)
}

/// Adds the quads of the visible back faces (facing -z) of the chunk.
fn update_back(
    vertices: &mut Vec<BlockVertex>,
    types: &Vec<BlockType>,
    data: (&[[[u8; 34]; 34]; 34], &[[[u8; 34]; 34]; 34], &[[[u8; 32]; 32]; 32]),
) -> (r: usize)
    requires
        types_cover(Side::Back, types@, *data.0, *data.2),
    ensures
        final(vertices)@ == old(vertices)@ + side_quads(Side::Back, types@, *data.0, *data.1, *data.2, 32),
        r == (final(vertices)@.len() - old(vertices)@.len()) / 4,
{
    update_side(Side::Back, vertices, types, data.0, data.1, data.2)
}

/// Adds the quads of the visible top faces (facing +y) of the chunk.
fn update_top(
    vertices: &mut Vec<BlockVertex>,
    types: &Vec<BlockType>,
    data: (&[[[u8; 34]; 34]; 34], &[[[u8; 34]; 34]; 34], &[[[u8; 32]; 32]; 32]),
) -> (r: usize)
    requires
        types_cover(Side::Top, types@, *data.0, *data.2),
    ensures
        final(vertices)@ == old(vertices)@ + side_quads(Side::Top, types@, *data.0, *data.1, *data.2, 32),
        r == (final(vertices)@.len() - old(vertices)@.len()) / 4,
{
    update_side(Side::Top, vertices, types, data.0, data.1, data.2)
}

/// Adds the quads of the visible bottom faces (facing -y) of the chunk.
fn update_bottom(
    vertices: &mut Vec<BlockVertex>,
    types: &Vec<BlockType>,
    data: (&[[[u8; 34]; 34]; 34], &[[[u8; 34]; 34]; 34], &[[[u8; 32]; 32]; 32]),
) -> (r: usize)
    requires
        types_cover(Side::Bottom, types@, *data.0, *data.2),
    ensures
        final(vertices)@ == old(vertices)@ + side_quads(Side::Bottom, types@, *data.0, *data.1, *data.2, 32),
        r == (final(vertices)@.len() - old(vertices)@.len()) / 4,
{
    update_side(Side::Bottom, vertices, types, data.0, data.1, data.2)
}

/// Adds the quads of the visible left faces (facing -x) of the chunk.
fn update_left(
    vertices: &mut Vec<BlockVertex>,
    types: &Vec<BlockType>,
    data: (&[[[u8; 34]; 34]; 34], &[[[u8; 34]; 34]; 34], &[[[u8; 32]; 32]; 32]),
) -> (r: usize)
    requires
        types_cover(Side::Left, types@, *data.0, *data.2),
    ensures
        final(vertices)@ == old(vertices)@ + side_quads(Side::Left, types@, *data.0, *data.1, *data.2, 32),
        r == (final(vertices)@.len() - old(vertices)@.len()) / 4,
{
    update_side(Side::Left, vertices, types, data.0, data.1, data.2)
}

/// Adds the quads of the visible right faces (facing +x) of the chunk.
fn update_right(
    vertices: &mut Vec<BlockVertex>,
    types: &Vec<BlockType>,
    data: (&[[[u8; 34]; 34]; 34], &[[[u8; 34]; 34]; 34], &[[[u8; 32]; 32]; 32]),
) -> (r: usize)
    requires
        types_cover(Side::Right, types@, *data.0, *data.2),
    ensures
        final(vertices)@ == old(vertices)@ + side_quads(Side::Right, types@, *data.0, *data.1, *data.2, 32),
        r == (final(vertices)@.len() - old(vertices)@.len()) / 4,
{
    update_side(Side::Right, vertices, types, data.0, data.1, data.2)
}

} // verus!

verus! {

/// Whether `b` holds the chunk `d` with a border of empty cells around it.
pub open spec fn padded(b: [[[u8; 34]; 34]; 34], d: [[[u8; 32]; 32]; 32]) -> bool {
    forall|x: int, y: int, z: int|
        in_buffer(x, y, z) ==> #[trigger] b[x][y][z] == if in_cube(x - 1, y - 1, z - 1) {
            d[x - 1][y - 1][z - 1]
        } else {
            0
        }
}

/// Whether `sc` holds the visible faces of every block of the chunk in `b`.
pub open spec fn side_cache_of(sc: [[[u8; 32]; 32]; 32], b: [[[u8; 34]; 34]; 34]) -> bool {
    forall|x: int, y: int, z: int| in_cube(x, y, z) ==> #[trigger] sc[x][y][z] == sides_of(b, x + 1, y + 1, z + 1)
}

/// Whether every block of the chunk in `b` with a visible face has a type.
pub open spec fn visible_typed(types: Seq<BlockType>, b: [[[u8; 34]; 34]; 34]) -> bool {
    forall|x: int, y: int, z: int|
        in_cube(x, y, z) && #[trigger] sides_of(b, x + 1, y + 1, z + 1) != 0 ==> b[x + 1][y + 1][z + 1] < types.len()
}

/// The side whose faces come `i`-th in a block mesh.
pub open spec fn mesh_side(i: int) -> Side {
    if i == 0 {
        Side::Front
    } else if i == 1 {
        Side::Back
    } else if i == 2 {
        Side::Top
    } else if i == 3 {
        Side::Bottom
    } else if i == 4 {
        Side::Left
    } else {
        Side::Right
    }
}

/// The vertices of the first `k` sides of a block mesh.
pub open spec fn mesh_quads(
    types: Seq<BlockType>,
    b: [[[u8; 34]; 34]; 34],
    l: [[[u8; 34]; 34]; 34],
    sc: [[[u8; 32]; 32]; 32],
    k: int,
) -> Seq<BlockVertex>
    decreases k,
{
    if k <= 0 {
        Seq::empty()
    } else {
        mesh_quads(types, b, l, sc, k - 1) + side_quads(mesh_side(k - 1), types, b, l, sc, 32)
    }
}

/// Two buffers with the same cells are the same.
proof fn lemma_buffer_ext(b1: [[[u8; 34]; 34]; 34], b2: [[[u8; 34]; 34]; 34])
    requires
        forall|x: int, y: int, z: int| in_buffer(x, y, z) ==> #[trigger] b1[x][y][z] == b2[x][y][z],
    ensures
        b1 == b2,
{
    broadcast use vstd::array::group_array_axioms;
    assert forall|x: int| 0 <= x < 34 implies #[trigger] b1[x] == b2[x] by {
        assert forall|y: int| 0 <= y < 34 implies #[trigger] b1[x][y] == b2[x][y] by {
            assert forall|z: int| 0 <= z < 34 implies #[trigger] b1[x][y][z] == b2[x][y][z] by {
                assert(in_buffer(x, y, z));
            }
            assert(b1[x][y] =~= b2[x][y]);
        }
        assert(b1[x] =~= b2[x]);
    }
    assert(b1 =~= b2);
}

/// Two side caches with the same cells are the same.
proof fn lemma_side_cache_ext(s1: [[[u8; 32]; 32]; 32], s2: [[[u8; 32]; 32]; 32])
    requires
        forall|x: int, y: int, z: int| in_cube(x, y, z) ==> #[trigger] s1[x][y][z] == s2[x][y][z],
    ensures
        s1 == s2,
{
    broadcast use vstd::array::group_array_axioms;
    assert forall|x: int| 0 <= x < 32 implies #[trigger] s1[x] == s2[x] by {
        assert forall|y: int| 0 <= y < 32 implies #[trigger] s1[x][y] == s2[x][y] by {
            assert forall|z: int| 0 <= z < 32 implies #[trigger] s1[x][y][z] == s2[x][y][z] by {
                assert(in_cube(x, y, z));
            }
            assert(s1[x][y] =~= s2[x][y]);
        }
        assert(s1[x] =~= s2[x]);
    }
    assert(s1 =~= s2);
}

/// A face on any side is visible only where the block has some visible face.
proof fn lemma_typed_covers(side: Side, types: Seq<BlockType>, b: [[[u8; 34]; 34]; 34], sc: [[[u8; 32]; 32]; 32])
    requires
        visible_typed(types, b),
        side_cache_of(sc, b),
    ensures
        types_cover(side, types, b, sc),
{
    assert forall|x: int, y: int, z: int|
        0 <= x < 32 && 0 <= y < 32 && 0 <= z < 32 && #[trigger] sc[x][y][z] & side_bit(side) != 0 implies
        b[x + 1][y + 1][z + 1] < types.len() by {
        let v = sc[x][y][z];
        let bit = side_bit(side);
        assert(v & bit != 0 ==> v != 0) by (bit_vector);
        assert(in_cube(x, y, z));
        assert(sides_of(b, x + 1, y + 1, z + 1) != 0);
    }
}

/// Whether bit `i` of `mask` is set: side `i` faces the viewer.
pub open spec fn side_drawn(mask: u8, i: int) -> bool {
    mask & (1u8 << (i as u8)) != 0
}

/// The index range of side `i` of a mesh whose sides start at `start` and
/// hold `count` quads: six indices per quad.
pub open spec fn side_range(start: [usize; 6], count: [usize; 6], i: int) -> (int, int) {
    (start[i] * 6, (start[i] + count[i]) * 6)
}

/// The index ranges drawn for the first `n` sides under `mask`, in side
/// order: each side whose bit is set, unless its range ends at 0.
pub open spec fn ranges_upto(start: [usize; 6], count: [usize; 6], mask: u8, n: nat) -> Seq<(usize, usize)>
    decreases n,
{
    if n == 0 {
        Seq::empty()
    } else {
        let prev = ranges_upto(start, count, mask, (n - 1) as nat);
        let (lo, hi) = side_range(start, count, n - 1);
        if side_drawn(mask, n - 1) && hi != 0 {
            prev.push((lo as usize, hi as usize))
        } else {
            prev
        }
    }
}

/// Whether every index range that drawing under `mask` computes fits a
/// `usize`: the whole mesh for the full mask, else each selected side.
pub open spec fn draw_fits(start: [usize; 6], count: [usize; 6], mask: u8) -> bool {
    if mask == 0b111111 {
        (start[5] + count[5]) * 6 <= usize::MAX
    } else {
        forall|i: int| 0 <= i < 6 && side_drawn(mask, i) ==> (start[i] + count[i]) * 6 <= usize::MAX
    }
}

/// The index ranges drawn under `mask`: with every bit of the six set, the
/// whole mesh at once; else one range per selected, non-empty side.
pub open spec fn drawn_ranges(start: [usize; 6], count: [usize; 6], mask: u8) -> Seq<(usize, usize)> {
    if mask == 0b111111 {
        seq![(0usize, ((start[5] + count[5]) * 6) as usize)]
    } else {
        ranges_upto(start, count, mask, 6)
    }
}

/// The mesh of a chunk as the renderer uses it: how many quads each side's
/// faces take, where each side's quads start, and when it was built.
pub struct BlockMesh {
    pub side_square_count: [usize; 6],
    pub side_start: [usize; 6],
    pub last_updated_at: u64,
}

impl BlockMesh {
    /// An empty mesh, never built.
    pub fn new() -> (r: Self)
        ensures
            forall|i: int| 0 <= i < 6 ==> #[trigger] r.side_square_count[i] == 0 && r.side_start[i] == 0,
            r.last_updated_at == 0,
    {
        Self { side_square_count: [0usize; 6], side_start: [0usize; 6], last_updated_at: 0 }
    }

    /// When the mesh was last built.
    pub fn last_updated_at(&self) -> (r: u64)
        ensures
            r == self.last_updated_at,
    {
        self.last_updated_at
    }

    /// How many indices drawing the whole mesh takes: six per quad, up to
    /// the end of the last side's quads.
    pub fn index_count(&self) -> (r: u32)
        requires
            (self.side_start[5] + self.side_square_count[5]) * 6 <= usize::MAX,
        ensures
            r == ((self.side_start[5] + self.side_square_count[5]) * 6) as u32,
    {
        ((self.side_start[5] + self.side_square_count[5]) * 6) as u32
    }

    /// The ranges of the index buffer to draw for a chunk whose faces
    /// towards the viewer are the bits of `mask` (see `calc_mask`).
    pub fn draw_ranges(&self, mask: u8) -> (r: Vec<(usize, usize)>)
        requires
            draw_fits(self.side_start, self.side_square_count, mask),
        ensures
            r@ == drawn_ranges(self.side_start, self.side_square_count, mask),
    {
        let mut r: Vec<(usize, usize)> = Vec::new();
        if mask == 0b111111 {
            let index_count = (self.side_start[5] + self.side_square_count[5]) * 6;
            r.push((0, index_count));
            return r;
        }
        let mut i: usize = 0;
        while i < 6
            invariant
                i <= 6,
                mask != 0b111111,
                draw_fits(self.side_start, self.side_square_count, mask),
                r@ == ranges_upto(self.side_start, self.side_square_count, mask, i as nat),
            decreases 6 - i,
        {
            if mask & (1u8 << (i as u8)) != 0 {
                assert(side_drawn(mask, i as int));
                let start_offset = self.side_start[i] * 6;
                let index_count = start_offset + self.side_square_count[i] * 6;
                if index_count != 0 {
                    r.push((start_offset, index_count));
                }
            }
            i += 1;
        }
        r
    }

    /// Builds the mesh of `chunk` lit by `light`, textured by `types`, at
    /// time `now`, and hands out its vertices: the quads of the visible
    /// faces side by side (front, back, top, bottom, left, right), each
    /// side slice by slice with the faces of a slice merged into rectangles.
    pub fn update(&mut self, chunk: &ChunkBlockData, light: &ChunkLightData, types: &Vec<BlockType>, now: u64)
        -> (vertices: Vec<BlockVertex>)
        requires
            forall|b: [[[u8; 34]; 34]; 34]| padded(b, chunk@) ==> visible_typed(types@, b),
        ensures
            forall|b: [[[u8; 34]; 34]; 34], l: [[[u8; 34]; 34]; 34], sc: [[[u8; 32]; 32]; 32]|
                padded(b, chunk@) && padded(l, light@) && side_cache_of(sc, b) ==> {
                    &&& vertices@ == mesh_quads(types@, b, l, sc, 6)
                    &&& forall|i: int| 0 <= i < 6 ==> #[trigger] final(self).side_square_count[i]
                        == side_quads(mesh_side(i), types@, b, l, sc, 32).len() / 4
                },
            forall|i: int| 0 <= i < 6 ==> #[trigger] final(self).side_start[i] == partial_sum(final(self).side_square_count, i),
            final(self).last_updated_at == now,
    {
        self.last_updated_at = now;
        let mut vertices: Vec<BlockVertex> = Vec::new();
        let mut block_data = [[[0u8; 34]; 34]; 34];
        let mut light_data = [[[0u8; 34]; 34]; 34];
        let mut side_cache = [[[0u8; 32]; 32]; 32];
        proof {
            broadcast use vstd::array::group_array_axioms;
            assert forall|x: int, y: int, z: int| in_buffer(x, y, z) implies #[trigger] block_data[x][y][z] == 0 by {
            }
            assert forall|x: int, y: int, z: int| in_buffer(x, y, z) implies #[trigger] light_data[x][y][z] == 0 by {
            }
        }
        calc_block_data(&mut block_data, chunk);
        calc_light_data(&mut light_data, light);
        calc_side_cache(&mut side_cache, &block_data);
        proof {
            lemma_typed_covers(Side::Front, types@, block_data, side_cache);
            lemma_typed_covers(Side::Back, types@, block_data, side_cache);
            lemma_typed_covers(Side::Top, types@, block_data, side_cache);
            lemma_typed_covers(Side::Bottom, types@, block_data, side_cache);
            lemma_typed_covers(Side::Left, types@, block_data, side_cache);
            lemma_typed_covers(Side::Right, types@, block_data, side_cache);
            let (b, l, sc) = (block_data, light_data, side_cache);
            lemma_side_quads_len(Side::Front, types@, b, l, sc, 32);
            lemma_side_quads_len(Side::Back, types@, b, l, sc, 32);
            lemma_side_quads_len(Side::Top, types@, b, l, sc, 32);
            lemma_side_quads_len(Side::Bottom, types@, b, l, sc, 32);
            lemma_side_quads_len(Side::Left, types@, b, l, sc, 32);
            lemma_side_quads_len(Side::Right, types@, b, l, sc, 32);
        }
        let data = (&block_data, &light_data, &side_cache);
        let mut counts = [0usize; 6];
        counts[0] = update_front(&mut vertices, types, data);
        counts[1] = update_back(&mut vertices, types, data);
        counts[2] = update_top(&mut vertices, types, data);
        counts[3] = update_bottom(&mut vertices, types, data);
        counts[4] = update_left(&mut vertices, types, data);
        counts[5] = update_right(&mut vertices, types, data);
        proof {
            reveal_with_fuel(partial_sum, 6);
            reveal_with_fuel(mesh_quads, 7);
        }
        self.side_square_count = counts;
        self.side_start = side_starts(counts);
        proof {
            assert forall|b: [[[u8; 34]; 34]; 34], l: [[[u8; 34]; 34]; 34], sc: [[[u8; 32]; 32]; 32]|
                padded(b, chunk@) && padded(l, light@) && side_cache_of(sc, b) implies
                b == block_data && l == light_data && sc == side_cache by {
                lemma_buffer_ext(b, block_data);
                lemma_buffer_ext(l, light_data);
                lemma_side_cache_ext(sc, side_cache);
            }
        }
        vertices
    }
}

} // verus!
