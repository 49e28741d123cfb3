//! The vertices of block meshes: a corner position inside a chunk, a
//! texture, the side it faces and its light, packed into five bytes.
use vstd::prelude::*;
use crate::side::Side;

verus! {

/// One vertex of a block mesh; `side_and_light` holds the side in its low
/// four bits and the light in its high four bits.
#[derive(Copy, Clone, Debug, PartialEq, Eq, Structural)]
pub struct BlockVertex {
    pub x: u8,
    pub y: u8,
    pub z: u8,
    pub texture_index: u8,
    pub side_and_light: u8,
}

impl Default for BlockVertex {
    /// The vertex with every field 0.
    fn default() -> (r: Self)
        ensures
            r == (BlockVertex { x: 0, y: 0, z: 0, texture_index: 0, side_and_light: 0 }),
    {
        BlockVertex { x: 0, y: 0, z: 0, texture_index: 0, side_and_light: 0 }
    }
}

/// The vertex that [`BlockVertex::new`] builds: the side or-ed with the
/// light shifted into the high four bits (bits shifted past the byte are
/// lost).
pub open spec fn vertex(x: u8, y: u8, z: u8, texture_index: u8, side: u8, light: u8) -> BlockVertex {
    BlockVertex { x, y, z, texture_index, side_and_light: side | ((light << 4u8) as u8) }
}

/// Four bits of `light` starting at bit `4 * k`: the light of the `k`-th
/// corner of a face.
pub open spec fn nibble(light: u16, k: u16) -> u8 {
    ((light >> (4 * k)) & 0xFu16) as u8
}

/// Whether `a + b` fits a byte.
pub open spec fn fits(a: u8, b: u8) -> bool {
    a + b <= 255
}

/// The four corners of the face on `side` of the box at `pos` of extent
/// `size`, in the order in which they are added; corner `k` gets light
/// `nibble(light, k)`.
pub open spec fn face_vertices(side: Side, pos: (u8, u8, u8), size: (u8, u8, u8), texture_index: u8, light: u16) -> Seq<BlockVertex> {
    match side {
        Side::Front => seq![
            vertex(pos.0, pos.1, (pos.2 + size.2) as u8, texture_index, 0, nibble(light, 0)),
            vertex((pos.0 + size.0) as u8, pos.1, (pos.2 + size.2) as u8, texture_index, 0, nibble(light, 1)),
            vertex((pos.0 + size.0) as u8, (pos.1 + size.1) as u8, (pos.2 + size.2) as u8, texture_index, 0, nibble(light, 2)),
            vertex(pos.0, (pos.1 + size.1) as u8, (pos.2 + size.2) as u8, texture_index, 0, nibble(light, 3)),
        ],
        Side::Back => seq![
            vertex(pos.0, pos.1, pos.2, texture_index, 1, nibble(light, 0)),
            vertex(pos.0, (pos.1 + size.1) as u8, pos.2, texture_index, 1, nibble(light, 1)),
            vertex((pos.0 + size.0) as u8, (pos.1 + size.1) as u8, pos.2, texture_index, 1, nibble(light, 2)),
            vertex((pos.0 + size.0) as u8, pos.1, pos.2, texture_index, 1, nibble(light, 3)),
        ],
        Side::Top => seq![
            vertex(pos.0, (pos.1 + size.1) as u8, pos.2, texture_index, 2, nibble(light, 0)),
            vertex(pos.0, (pos.1 + size.1) as u8, (pos.2 + size.2) as u8, texture_index, 2, nibble(light, 1)),
            vertex((pos.0 + size.0) as u8, (pos.1 + size.1) as u8, (pos.2 + size.2) as u8, texture_index, 2, nibble(light, 2)),
            vertex((pos.0 + size.0) as u8, (pos.1 + size.1) as u8, pos.2, texture_index, 2, nibble(light, 3)),
        ],
        Side::Bottom => seq![
            vertex(pos.0, pos.1, pos.2, texture_index, 3, nibble(light, 0)),
            vertex((pos.0 + size.0) as u8, pos.1, pos.2, texture_index, 3, nibble(light, 1)),
            vertex((pos.0 + size.0) as u8, pos.1, (pos.2 + size.2) as u8, texture_index, 3, nibble(light, 2)),
            vertex(pos.0, pos.1, (pos.2 + size.2) as u8, texture_index, 3, nibble(light, 3)),
        ],
        Side::Left => seq![
            vertex(pos.0, pos.1, pos.2, texture_index, 4, nibble(light, 0)),
            vertex(pos.0, pos.1, (pos.2 + size.2) as u8, texture_index, 4, nibble(light, 1)),
            vertex(pos.0, (pos.1 + size.1) as u8, (pos.2 + size.2) as u8, texture_index, 4, nibble(light, 2)),
            vertex(pos.0, (pos.1 + size.1) as u8, pos.2, texture_index, 4, nibble(light, 3)),
        ],
        Side::Right => seq![
            vertex((pos.0 + size.0) as u8, pos.1, pos.2, texture_index, 5, nibble(light, 0)),
            vertex((pos.0 + size.0) as u8, (pos.1 + size.1) as u8, pos.2, texture_index, 5, nibble(light, 1)),
            vertex((pos.0 + size.0) as u8, (pos.1 + size.1) as u8, (pos.2 + size.2) as u8, texture_index, 5, nibble(light, 2)),
            vertex((pos.0 + size.0) as u8, pos.1, (pos.2 + size.2) as u8, texture_index, 5, nibble(light, 3)),
        ],
    }
}

/// The position of a vertex.
pub open spec fn at(v: BlockVertex) -> (int, int, int) {
    (v.x as int, v.y as int, v.z as int)
}

/// The coordinate of `p` along axis `a`: 0 for x, 1 for y, 2 for z.
pub open spec fn coord(p: (int, int, int), a: int) -> int {
    if a == 0 {
        p.0
    } else if a == 1 {
        p.1
    } else {
        p.2
    }
}

/// The axis along which a face of `side` faces: z for front and back, y
/// for top and bottom, x for left and right.
pub open spec fn normal_axis(side: Side) -> int {
    match side {
        Side::Front | Side::Back => 2,
        Side::Top | Side::Bottom => 1,
        Side::Left | Side::Right => 0,
    }
}

/// Whether a face of `side` faces the positive direction of its axis: the
/// front (+z), the top (+y) and the right side (+x).
pub open spec fn faces_positive(side: Side) -> bool {
    side == Side::Front || side == Side::Top || side == Side::Right
}

/// How far the corner path `a`, `b`, `c` turns around axis `n`: the
/// component along `n` of the cross product of `b - a` and `c - b`;
/// positive for a counter-clockwise turn seen from the positive end of the
/// axis.
pub open spec fn turn(n: int, a: (int, int, int), b: (int, int, int), c: (int, int, int)) -> int {
    let u = if n == 0 { 1int } else if n == 1 { 2int } else { 0int };
    let v = if n == 0 { 2int } else if n == 1 { 0int } else { 1int };
    (coord(b, u) - coord(a, u)) * (coord(c, v) - coord(b, v)) - (coord(b, v) - coord(a, v)) * (coord(c, u) - coord(b, u))
}

/// Whether `p` and `q` differ in exactly one of the two axes other than `n`.
pub open spec fn one_step(n: int, p: (int, int, int), q: (int, int, int)) -> bool {
    let u = if n == 0 { 1int } else if n == 1 { 2int } else { 0int };
    let v = if n == 0 { 2int } else if n == 1 { 0int } else { 1int };
    (coord(p, u) != coord(q, u)) != (coord(p, v) != coord(q, v))
}

/// Whether `p` and `q` differ in both axes other than `n`.
pub open spec fn opposite(n: int, p: (int, int, int), q: (int, int, int)) -> bool {
    let u = if n == 0 { 1int } else if n == 1 { 2int } else { 0int };
    let v = if n == 0 { 2int } else if n == 1 { 0int } else { 1int };
    coord(p, u) != coord(q, u) && coord(p, v) != coord(q, v)
}

proof fn lemma_pos_mul(a: int, b: int)
    requires
        a > 0,
        b > 0,
    ensures
        a * b > 0,
        a * 0 == 0,
        0 * b == 0,
        (-a) * b < 0,
        a * (-b) < 0,
        (-a) * (-b) > 0,
{
    assert((-a) * (-b) > 0) by (nonlinear_arith)
        requires
            a > 0,
            b > 0,
    ;
    assert(a * b > 0) by (nonlinear_arith)
        requires
            a > 0,
            b > 0,
    ;
    assert((-a) * b < 0) by (nonlinear_arith)
        requires
            a > 0,
            b > 0,
    ;
    assert(a * (-b) < 0) by (nonlinear_arith)
        requires
            a > 0,
            b > 0,
    ;
}

/// The side and the light of a corner packed into one byte: the side in
/// the low four bits, the light in the high four.
proof fn lemma_packed(side: u8, light: u16, k: u16)
    requires
        side < 16,
        k < 4,
    ensures
        nibble(light, k) < 16,
        side | ((nibble(light, k) << 4u8) as u8) == side + 16 * nibble(light, k),
{
    let l = nibble(light, k);
    if k == 0 {
        assert(((light >> 0u16) & 0xFu16) < 16) by (bit_vector);
    } else if k == 1 {
        assert(((light >> 4u16) & 0xFu16) < 16) by (bit_vector);
    } else if k == 2 {
        assert(((light >> 8u16) & 0xFu16) < 16) by (bit_vector);
    } else {
        assert(((light >> 12u16) & 0xFu16) < 16) by (bit_vector);
    }
    assert(side | ((l << 4u8) as u8) == side + 16 * l) by (bit_vector)
        requires
            side < 16,
            l < 16,
    ;
}

/// Corner `k` of the quad for the face of `side` of the box at `pos` of
/// extent `size`: it lies in the plane of the face (at the far end of the
/// box along the face's axis for a face towards the positive direction,
/// else at the near end) and at one end of the box along each other axis;
/// it is one step along the rectangle from the next corner; the path from
/// it through the next two corners turns counter-clockwise seen from
/// outside the box; and it has the texture, the side's number in the low
/// four bits and its own light `nibble(light, k)` in the high four.
pub open spec fn corner_ok(side: Side, pos: (u8, u8, u8), size: (u8, u8, u8), texture_index: u8, light: u16, k: int) -> bool {
    let c = face_vertices(side, pos, size, texture_index, light);
    let n = normal_axis(side);
    let lo = (pos.0 as int, pos.1 as int, pos.2 as int);
    let ext = (size.0 as int, size.1 as int, size.2 as int);
    &&& coord(at(c[k]), n) == coord(lo, n) + if faces_positive(side) { coord(ext, n) } else { 0 }
    &&& forall|a: int|
        0 <= a < 3 && a != n ==> #[trigger] coord(at(c[k]), a) == coord(lo, a) || coord(at(c[k]), a) == coord(lo, a)
            + coord(ext, a)
    &&& one_step(n, at(c[k]), at(c[(k + 1) % 4]))
    &&& if faces_positive(side) {
        turn(n, at(c[k]), at(c[(k + 1) % 4]), at(c[(k + 2) % 4])) > 0
    } else {
        turn(n, at(c[k]), at(c[(k + 1) % 4]), at(c[(k + 2) % 4])) < 0
    }
    &&& c[k].texture_index == texture_index
    &&& c[k].side_and_light == side.index() + 16 * nibble(light, k as u16)
}

/// The quad added for the face of `side` of the box at `pos` of extent
/// `size` (at least 1 along the two axes of the face) goes round that face
/// of the box: four corners, each as [`corner_ok`] says, the first and
/// third opposite each other, and the second and fourth.
pub proof fn lemma_face_quad(side: Side, pos: (u8, u8, u8), size: (u8, u8, u8), texture_index: u8, light: u16)
    requires
        fits(pos.0, size.0),
        fits(pos.1, size.1),
        fits(pos.2, size.2),
        normal_axis(side) != 0 ==> size.0 > 0,
        normal_axis(side) != 1 ==> size.1 > 0,
        normal_axis(side) != 2 ==> size.2 > 0,
    ensures
        face_vertices(side, pos, size, texture_index, light).len() == 4,
        forall|k: int| 0 <= k < 4 ==> #[trigger] corner_ok(side, pos, size, texture_index, light, k),
        opposite(
            normal_axis(side),
            at(face_vertices(side, pos, size, texture_index, light)[0]),
            at(face_vertices(side, pos, size, texture_index, light)[2]),
        ),
        opposite(
            normal_axis(side),
            at(face_vertices(side, pos, size, texture_index, light)[1]),
            at(face_vertices(side, pos, size, texture_index, light)[3]),
        ),
{
    let (w, h, d) = (size.0 as int, size.1 as int, size.2 as int);
    match side {
        Side::Front | Side::Back => {
            lemma_pos_mul(w, h);
            lemma_pos_mul(h, w);
        },
        Side::Top | Side::Bottom => {
            lemma_pos_mul(d, w);
            lemma_pos_mul(w, d);
        },
        Side::Left | Side::Right => {
            lemma_pos_mul(h, d);
            lemma_pos_mul(d, h);
        },
    }
    let s = side.index() as u8;
    lemma_packed(s, light, 0);
    lemma_packed(s, light, 1);
    lemma_packed(s, light, 2);
    lemma_packed(s, light, 3);
    let c = face_vertices(side, pos, size, texture_index, light);
    let n = normal_axis(side);
    assert(one_step(n, at(c[0]), at(c[1])));
    assert(c[0].texture_index == texture_index);
    assert(c[0].side_and_light == side.index() + 16 * nibble(light, 0));
    assert(faces_positive(side) ==> turn(n, at(c[0]), at(c[1]), at(c[2])) > 0);
    assert(!faces_positive(side) ==> turn(n, at(c[0]), at(c[1]), at(c[2])) < 0);
    assert(corner_ok(side, pos, size, texture_index, light, 0));
    assert(corner_ok(side, pos, size, texture_index, light, 1));
    assert(one_step(n, at(c[2]), at(c[3])));
    assert(c[2].side_and_light == side.index() + 16 * nibble(light, 2));
    assert(faces_positive(side) ==> turn(n, at(c[2]), at(c[3]), at(c[0])) > 0);
    assert(!faces_positive(side) ==> turn(n, at(c[2]), at(c[3]), at(c[0])) < 0);
    assert(corner_ok(side, pos, size, texture_index, light, 2));
    assert(corner_ok(side, pos, size, texture_index, light, 3));
}

impl BlockVertex {
    pub fn new(x: u8, y: u8, z: u8, texture_index: u8, side: u8, light: u8) -> (r: Self)
        ensures
            r == vertex(x, y, z, texture_index, side, light),
            side < 16 && light < 16 ==> r.side_and_light == side + 16 * light,
    {
        let side_and_light = side | (light << 4u8);
        assert(side < 16 && light < 16 ==> side | ((light << 4u8) as u8) == side + 16 * light)
            by (bit_vector);
        Self { x, y, z, texture_index, side_and_light }
    }

    /// Adds the four corners of the front face (facing +z) of the box at
    /// `pos` of extent `size`; corner `k` gets light `nibble(light, k)`.
    pub fn add_front(
        vertices: &mut Vec<Self>,
        pos: (u8, u8, u8),
        size: (u8, u8, u8),
        texture_index: u8,
        light: u16,
    )
        requires
            fits(pos.0, size.0),
            fits(pos.1, size.1),
            fits(pos.2, size.2),
        ensures
            final(vertices)@ == old(vertices)@ + face_vertices(Side::Front, pos, size, texture_index, light),
    {
        let (x, y, z) = pos;
        let (w, h, d) = size;
        let side: u8 = Side::Front.into();
        let z = z + d;
        vertices.push(Self::new(x, y, z, texture_index, side, (light & 0xF) as u8));
        vertices.push(Self::new(x + w, y, z, texture_index, side, ((light >> 4u16) & 0xF) as u8));
        vertices.push(Self::new(x + w, y + h, z, texture_index, side, ((light >> 8u16) & 0xF) as u8));
        vertices.push(Self::new(x, y + h, z, texture_index, side, ((light >> 12u16) & 0xF) as u8));
        assert(light >> (4 * 0u16) == light) by (bit_vector);
    }

    /// Adds the four corners of the back face (facing -z) of the box at
    /// `pos` of extent `size`; corner `k` gets light `nibble(light, k)`.
    pub fn add_back(
        vertices: &mut Vec<Self>,
        pos: (u8, u8, u8),
        size: (u8, u8, u8),
        texture_index: u8,
        light: u16,
    )
        requires
            fits(pos.0, size.0),
            fits(pos.1, size.1),
        ensures
            final(vertices)@ == old(vertices)@ + face_vertices(Side::Back, pos, size, texture_index, light),
    {
        let (x, y, z) = pos;
        let (w, h, _) = size;
        let side: u8 = Side::Back.into();
        vertices.push(Self::new(x, y, z, texture_index, side, (light & 0xF) as u8));
        vertices.push(Self::new(x, y + h, z, texture_index, side, ((light >> 4u16) & 0xF) as u8));
        vertices.push(Self::new(x + w, y + h, z, texture_index, side, ((light >> 8u16) & 0xF) as u8));
        vertices.push(Self::new(x + w, y, z, texture_index, side, ((light >> 12u16) & 0xF) as u8));
        assert(light >> (4 * 0u16) == light) by (bit_vector);
    }

    /// Adds the four corners of the top face (facing +y) of the box at
    /// `pos` of extent `size`; corner `k` gets light `nibble(light, k)`.
    pub fn add_top(
        vertices: &mut Vec<Self>,
        pos: (u8, u8, u8),
        size: (u8, u8, u8),
        texture_index: u8,
        light: u16,
    )
        requires
            fits(pos.0, size.0),
            fits(pos.1, size.1),
            fits(pos.2, size.2),
        ensures
            final(vertices)@ == old(vertices)@ + face_vertices(Side::Top, pos, size, texture_index, light),
    {
        let (x, y, z) = pos;
        let (w, h, d) = size;
        let side: u8 = Side::Top.into();
        let y = y + h;
        vertices.push(Self::new(x, y, z, texture_index, side, (light & 0xF) as u8));
        vertices.push(Self::new(x, y, z + d, texture_index, side, ((light >> 4u16) & 0xF) as u8));
        vertices.push(Self::new(x + w, y, z + d, texture_index, side, ((light >> 8u16) & 0xF) as u8));
        vertices.push(Self::new(x + w, y, z, texture_index, side, ((light >> 12u16) & 0xF) as u8));
        assert(light >> (4 * 0u16) == light) by (bit_vector);
    }

    /// Adds the four corners of the bottom face (facing -y) of the box at
    /// `pos` of extent `size`; corner `k` gets light `nibble(light, k)`.
    pub fn add_bottom(
        vertices: &mut Vec<Self>,
        pos: (u8, u8, u8),
        size: (u8, u8, u8),
        texture_index: u8,
        light: u16,
    )
        requires
            fits(pos.0, size.0),
            fits(pos.2, size.2),
        ensures
            final(vertices)@ == old(vertices)@ + face_vertices(Side::Bottom, pos, size, texture_index, light),
    {
        let (x, y, z) = pos;
        let (w, _, d) = size;
        let side: u8 = Side::Bottom.into();
        vertices.push(Self::new(x, y, z, texture_index, side, (light & 0xF) as u8));
        vertices.push(Self::new(x + w, y, z, texture_index, side, ((light >> 4u16) & 0xF) as u8));
        vertices.push(Self::new(x + w, y, z + d, texture_index, side, ((light >> 8u16) & 0xF) as u8));
        vertices.push(Self::new(x, y, z + d, texture_index, side, ((light >> 12u16) & 0xF) as u8));
        assert(light >> (4 * 0u16) == light) by (bit_vector);
    }

    /// Adds the four corners of the left face (facing -x) of the box at
    /// `pos` of extent `size`; corner `k` gets light `nibble(light, k)`.
    pub fn add_left(
        vertices: &mut Vec<Self>,
        pos: (u8, u8, u8),
        size: (u8, u8, u8),
        texture_index: u8,
        light: u16,
    )
        requires
            fits(pos.1, size.1),
            fits(pos.2, size.2),
        ensures
            final(vertices)@ == old(vertices)@ + face_vertices(Side::Left, pos, size, texture_index, light),
    {
        let (x, y, z) = pos;
        let (_, h, d) = size;
        let side: u8 = Side::Left.into();
        vertices.push(Self::new(x, y, z, texture_index, side, (light & 0xF) as u8));
        vertices.push(Self::new(x, y, z + d, texture_index, side, ((light >> 4u16) & 0xF) as u8));
        vertices.push(Self::new(x, y + h, z + d, texture_index, side, ((light >> 8u16) & 0xF) as u8));
        vertices.push(Self::new(x, y + h, z, texture_index, side, ((light >> 12u16) & 0xF) as u8));
        assert(light >> (4 * 0u16) == light) by (bit_vector);
    }

    /// Adds the four corners of the right face (facing +x) of the box at
    /// `pos` of extent `size`; corner `k` gets light `nibble(light, k)`.
    pub fn add_right(
        vertices: &mut Vec<Self>,
        pos: (u8, u8, u8),
        size: (u8, u8, u8),
        texture_index: u8,
        light: u16,
    )
        requires
            fits(pos.0, size.0),
            fits(pos.1, size.1),
            fits(pos.2, size.2),
        ensures
            final(vertices)@ == old(vertices)@ + face_vertices(Side::Right, pos, size, texture_index, light),
    {
        let (x, y, z) = pos;
        let (w, h, d) = size;
        let side: u8 = Side::Right.into();
        let x = x + w;
        vertices.push(Self::new(x, y, z, texture_index, side, (light & 0xF) as u8));
        vertices.push(Self::new(x, y + h, z, texture_index, side, ((light >> 4u16) & 0xF) as u8));
        vertices.push(Self::new(x, y + h, z + d, texture_index, side, ((light >> 8u16) & 0xF) as u8));
        vertices.push(Self::new(x, y, z + d, texture_index, side, ((light >> 12u16) & 0xF) as u8));
        assert(light >> (4 * 0u16) == light) by (bit_vector);
    }
}

} // verus!