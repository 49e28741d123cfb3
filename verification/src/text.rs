//! The vertices of the user interface: textured, coloured quads for glyphs,
//! hearts and inventory slots, gathered on the CPU before they are uploaded.
use vstd::prelude::*;

verus! {

/// One vertex of the interface mesh: a screen position, a texel and a colour.
#[derive(Copy, Clone, Debug)]
pub struct Vertex2D {
    pub pos: [i16; 2],
    pub tex: [i16; 2],
    pub color: [u8; 4],
}

impl Default for Vertex2D {
    /// The vertex at the origin, texel 0, transparent black.
    fn default() -> (r: Self)
        ensures
            r.pos@ == seq![0i16, 0i16] && r.tex@ == seq![0i16, 0i16] && r.color@ == seq![0u8, 0u8, 0u8, 0u8],
    {
        Vertex2D { pos: [0, 0], tex: [0, 0], color: [0, 0, 0, 0] }
    }
}

/// Whether `v` lies in the range of an `i16`.
pub open spec fn in_i16(v: int) -> bool {
    i16::MIN <= v <= i16::MAX
}

/// The vertex at `(x, y)` with texel `(u, v)` and colour `color`.
pub open spec fn vert(x: i16, y: i16, u: i16, v: i16, color: [u8; 4]) -> Vertex2D {
    Vertex2D { pos: [x, y], tex: [u, v], color }
}

/// The quad (two triangles) that covers the screen rectangle at `(x, y)` of
/// size `(w, h)` with the texture rectangle at `(u, v)` of size `(uw, vh)`,
/// in the order in which [`TextMesh::push_box`] pushes its vertices.
pub open spec fn box_vertices(
    x: i16, y: i16, w: i16, h: i16,
    u: i16, v: i16, uw: i16, vh: i16,
    color: [u8; 4],
) -> Seq<Vertex2D> {
    let (x2, y2, u2, v2) = ((x + w) as i16, (y + h) as i16, (u + uw) as i16, (v + vh) as i16);
    seq![
        vert(x, y2, u, v2, color),
        vert(x2, y, u2, v, color),
        vert(x, y, u, v, color),
        vert(x2, y, u2, v, color),
        vert(x, y2, u, v2, color),
        vert(x2, y2, u2, v2, color),
    ]
}

/// Whether the corners of that quad fit an `i16`.
pub open spec fn box_fits(x: i16, y: i16, w: i16, h: i16, u: i16, v: i16, uw: i16, vh: i16) -> bool {
    in_i16(x + w) && in_i16(y + h) && in_i16(u + uw) && in_i16(v + vh)
}

/// Texture column of the heart sprite with `fill_state` quarters filled.
pub open spec fn heart_u(fill_state: i16) -> int {
    108 + fill_state * 4
}

/// The quad of a heart of edge `size` at `(x, y)` with `fill_state`
/// quarters filled.
pub open spec fn heart_vertices(x: i16, y: i16, size: i16, rgba: [u8; 4], fill_state: i16) -> Seq<Vertex2D> {
    box_vertices(x, y, size, size, heart_u(fill_state) as i16, 124, 4, 4, rgba)
}

/// Whether the heart at `(x, y)` of edge `size` fits an `i16`.
pub open spec fn heart_fits(x: i16, y: i16, size: i16, fill_state: i16) -> bool {
    in_i16(fill_state * 4) && in_i16(heart_u(fill_state) + 4) && in_i16(x + size) && in_i16(y + size)
}

/// The edge of a glyph drawn at `size`, in pixels.
pub open spec fn glyph_width(size: i16) -> int {
    8 * size
}

/// The edge of a glyph's texture rectangle: `size`, at most 2.
pub open spec fn glyph_texel(size: i16) -> int {
    if size < 2 { size as int } else { 2 }
}

/// Whether `push_glyph` draws nothing for `c` at `(x, y)`: the glyph lies
/// wholly left of or above the screen, or `c` is a NUL or a space.
pub open spec fn glyph_skipped(x: i16, y: i16, size: i16, c: char) -> bool {
    x < -glyph_width(size) || y < -glyph_width(size) || c == '\0' || c == ' '
}

/// The low four bits of the byte of `c`: the column of its glyph.
pub open spec fn glyph_col(c: char) -> int {
    ((c as u8) & 0xFu8) as int
}

/// The high four bits of the byte of `c`: the row of its glyph.
pub open spec fn glyph_row(c: char) -> int {
    (((c as u8) >> 4u8) & 0xFu8) as int
}

/// Texture column of the glyph of `c` at `size`.
pub open spec fn glyph_u(size: i16, c: char) -> int {
    32 + glyph_col(c) * glyph_texel(size)
}

/// Texture row of the glyph of `c` at `size`: glyphs of size 1 come from
/// the block of the font texture just above those of larger sizes.
pub open spec fn glyph_v(size: i16, c: char) -> int {
    (if size == 1 { 112int } else { 128int }) - (glyph_row(c) + 1) * glyph_texel(size)
}

/// Whether drawing the glyph of `c` at `(x, y)` keeps every value in `i16`.
pub open spec fn glyph_fits(x: i16, y: i16, size: i16, c: char) -> bool {
    &&& in_i16(glyph_width(size))
    &&& in_i16(-glyph_width(size))
    &&& !glyph_skipped(x, y, size, c) ==> {
        &&& in_i16(glyph_col(c) * glyph_texel(size))
        &&& in_i16(glyph_u(size, c))
        &&& in_i16((glyph_row(c) + 1) * glyph_texel(size))
        &&& in_i16(glyph_v(size, c))
        &&& in_i16(x + glyph_width(size))
        &&& in_i16(y + glyph_width(size))
        &&& in_i16(glyph_u(size, c) + glyph_texel(size))
        &&& in_i16(glyph_v(size, c) + glyph_texel(size))
    }
}

/// The vertices that `push_glyph` appends: nothing if the glyph is skipped,
/// else the quad of edge `glyph_width(size)` at `(x, y)` textured with the
/// glyph's square of the font.
pub open spec fn glyph_vertices(x: i16, y: i16, size: i16, rgba: [u8; 4], c: char) -> Seq<Vertex2D> {
    if glyph_skipped(x, y, size, c) {
        Seq::empty()
    } else {
        let gw = glyph_width(size) as i16;
        let t = glyph_texel(size) as i16;
        box_vertices(x, y, gw, gw, glyph_u(size, c) as i16, glyph_v(size, c) as i16, t, t, rgba)
    }
}

/// Whether `v` lies in the range of an `i32`.
pub open spec fn in_i32(v: int) -> bool {
    i32::MIN <= v <= i32::MAX
}

/// Where `push_string` draws the glyph at index `i` of a string drawn at
/// `x`: `i` glyph widths to the right, the offset taken as an `i16`.
pub open spec fn string_glyph_x(x: i16, size: i32, i: int) -> int {
    x + ((((i as i32) as int) * (8 * size)) as i16)
}

/// Whether drawing the glyph `c` at index `i` of a string keeps every value
/// in range.
pub open spec fn string_glyph_fits(x: i16, y: i16, size: i32, i: int, c: char) -> bool {
    &&& in_i32(((i as i32) as int) * (8 * size))
    &&& in_i16(string_glyph_x(x, size, i))
    &&& glyph_fits(string_glyph_x(x, size, i) as i16, y, size as i16, c)
}

/// Whether drawing `chars` at `(x, y)` keeps every value in range.
pub open spec fn string_fits(x: i16, y: i16, size: i32, chars: Seq<char>) -> bool {
    &&& in_i32(8 * size)
    &&& forall|i: int| 0 <= i < chars.len() ==> #[trigger] string_glyph_fits(x, y, size, i, chars[i])
}

/// The vertices that `push_string` appends for `chars`: the glyph of each
/// character in turn, the `i`-th at `string_glyph_x(x, size, i)`.
pub open spec fn string_vertices(x: i16, y: i16, size: i32, rgba: [u8; 4], chars: Seq<char>) -> Seq<Vertex2D>
    decreases chars.len(),
{
    if chars.len() == 0 {
        Seq::empty()
    } else {
        let i = chars.len() - 1;
        string_vertices(x, y, size, rgba, chars.drop_last())
            + glyph_vertices(string_glyph_x(x, size, i) as i16, y, size as i16, rgba, chars.last())
    }
}

/// The interface mesh as it is being built: the vertices pushed since the
/// last upload, and how many vertices that upload held.
pub struct TextMesh {
    vertex_count: usize,
    finished: bool,
    vertices: Vec<Vertex2D>,
}

impl TextMesh {
    /// The vertices pushed since the last upload.
    pub closed spec fn pending(&self) -> Seq<Vertex2D> {
        self.vertices@
    }

    /// How many vertices the last upload held.
    pub closed spec fn uploaded(&self) -> nat {
        self.vertex_count as nat
    }

    /// Whether the mesh is finished, so that it keeps its last upload.
    pub closed spec fn is_finished(&self) -> bool {
        self.finished
    }

    /// An empty mesh.
    pub fn new() -> (r: Self)
        ensures
            r.pending().len() == 0,
            r.uploaded() == 0,
            !r.is_finished(),
    {
        Self { vertex_count: 0, finished: false, vertices: Vec::new() }
    }

    /// Hands out the vertices pushed since the last upload, for the caller
    /// to upload, and records how many they are; a finished mesh hands out
    /// nothing and stays as it is.
    pub fn prepare(&mut self) -> (r: Option<Vec<Vertex2D>>)
        ensures
            old(self).is_finished() ==> r is None && *final(self) == *old(self),
            !old(self).is_finished() ==> {
                &&& r matches Some(v) && v@ == old(self).pending()
                &&& final(self).pending().len() == 0
                &&& final(self).uploaded() == old(self).pending().len()
                &&& !final(self).is_finished()
            },
    {
        if self.finished {
            None
        } else {
            let mut vertices = Vec::new();
            std::mem::swap(&mut vertices, &mut self.vertices);
            self.vertex_count = vertices.len();
            Some(vertices)
        }
    }

    /// Appends the vertex at `(x, y)` with texel `(u, v)` and colour `color`.
    pub fn push_vertex(&mut self, x: i16, y: i16, u: i16, v: i16, color: [u8; 4]) -> (r: &mut Self)
        ensures
            r.pending() == old(self).pending().push(vert(x, y, u, v, color)),
            r.uploaded() == old(self).uploaded(),
            *final(self) == *final(r),
    {
        self.vertices.push(Vertex2D { pos: [x, y], tex: [u, v], color });
        self
    }

    /// Appends the quad that covers the rectangle `(x, y, w, h)` of the
    /// screen with the rectangle `(u, v, uw, vh)` of the texture.
    pub fn push_box(
        &mut self,
        rect: (i16, i16, i16, i16),
        tex: (i16, i16, i16, i16),
        rgba: [u8; 4],
    ) -> (r: &mut Self)
        requires
            box_fits(rect.0, rect.1, rect.2, rect.3, tex.0, tex.1, tex.2, tex.3),
        ensures
            r.pending() == old(self).pending() + box_vertices(
                rect.0, rect.1, rect.2, rect.3, tex.0, tex.1, tex.2, tex.3, rgba,
            ),
            r.uploaded() == old(self).uploaded(),
            *final(self) == *final(r),
    {
        let (x, y, w, h) = rect;
        let (u, v, uw, vh) = tex;
        self.vertices.push(Vertex2D { pos: [x, y + h], tex: [u, v + vh], color: rgba });
        self.vertices.push(Vertex2D { pos: [x + w, y], tex: [u + uw, v], color: rgba });
        self.vertices.push(Vertex2D { pos: [x, y], tex: [u, v], color: rgba });
        self.vertices.push(Vertex2D { pos: [x + w, y], tex: [u + uw, v], color: rgba });
        self.vertices.push(Vertex2D { pos: [x, y + h], tex: [u, v + vh], color: rgba });
        self.vertices.push(Vertex2D { pos: [x + w, y + h], tex: [u + uw, v + vh], color: rgba });
        self
    }

    /// Appends a heart of edge `size` at `(x, y)` with `fill_state`
    /// quarters filled (0 to 4).
    pub fn push_heart(&mut self, x: i16, y: i16, size: i16, rgba: [u8; 4], fill_state: i16) -> (r: &mut Self)
        requires
            heart_fits(x, y, size, fill_state),
        ensures
            r.pending() == old(self).pending() + heart_vertices(x, y, size, rgba, fill_state),
            r.uploaded() == old(self).uploaded(),
            *final(self) == *final(r),
    {
        let u = 128 - 20 + fill_state * 4;
        let v = 128 - 4;
        self.push_box((x, y, size, size), (u, v, 4, 4), rgba)
    }

    /// Appends the glyph of `c` at `(x, y)`, drawn at `size` times the
    /// font's resolution; glyphs wholly off screen, NULs and spaces are
    /// not drawn.
    pub fn push_glyph(&mut self, x: i16, y: i16, size: i16, rgba: [u8; 4], c: char) -> (r: &mut Self)
        requires
            glyph_fits(x, y, size, c),
        ensures
            r.pending() == old(self).pending() + glyph_vertices(x, y, size, rgba, c),
            r.uploaded() == old(self).uploaded(),
            *final(self) == *final(r),
    {
        let glyph_width: i16 = 8 * size;
        if x < -glyph_width {
            return self;
        }
        if y < -glyph_width {
            return self;
        }
        if c == '\0' {
            return self;
        }
        if c == ' ' {
            return self;
        }
        let cc = c as u8;
        let texel: i16 = if size < 2 { size } else { 2 };
        let col: u8 = cc & 0xF;
        let row: u8 = (cc >> 4u8) & 0xF;
        assert(cc & 0xFu8 <= 15) by (bit_vector);
        assert((cc >> 4u8) & 0xFu8 <= 15) by (bit_vector);
        let u = 32 + (col as i16 * texel);
        let voff: i16 = if size == 1 { 128 - 16 } else { 128 };
        let v = voff - ((row + 1) as i16 * texel);
        self.push_box((x, y, glyph_width, glyph_width), (u, v, texel, texel), rgba)
    }

    /// Appends the glyphs of `text`, left to right from `(x, y)`, each
    /// `8 * size` pixels wide.
    pub fn push_string(&mut self, x: i16, y: i16, size: i32, rgba: [u8; 4], text: &str) -> (r: &mut Self)
        requires
            string_fits(x, y, size, text@),
            text@.len() <= usize::MAX,
        ensures
            r.pending() == old(self).pending() + string_vertices(x, y, size, rgba, text@),
            r.uploaded() == old(self).uploaded(),
            *final(self) == *final(r),
    {
        broadcast use vstd::string::axiom_spec_iter;
        let glyph_width: i32 = 8 * size;
        let mut i: usize = 0;
        for c in it: text.chars()
            invariant
                string_fits(x, y, size, text@),
                glyph_width == 8 * size,
                i == it.index(),
                i <= text@.len(),
                text@.len() <= usize::MAX,
                it.seq() == text@,
                self.pending() == old(self).pending() + string_vertices(x, y, size, rgba, text@.take(i as int)),
                self.uploaded() == old(self).uploaded(),
        {
            assert(i < text@.len());
            assert(c == text@[i as int]);
            assert(string_glyph_fits(x, y, size, i as int, text@[i as int]));
            let gx: i16 = x + ((i as i32) * glyph_width) as i16;
            self.push_glyph(gx, y, size as i16, rgba, c);
            assert(text@.take(i + 1).drop_last() =~= text@.take(i as int));
            i = i + 1;
        }
        assert(text@.take(i as int) =~= text@);
        self
    }
}

} // verus!
