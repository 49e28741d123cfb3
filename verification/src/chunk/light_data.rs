//! The light of one chunk, with sunlight ramping up from its top layer or
//! entering from the chunk above, and light from the six neighbouring chunks.
use vstd::prelude::*;
use crate::chunk::block::{lemma_block_view, ChunkBlockData};
use crate::chunk::in_cube;
use crate::chunk::light::{
    agree, as_fn, finish_light, lemma_sun_bounds, light_at, light_bounded, lemma_blurred_bounded,
    blurred, sky_seed, sun, sunlight, top_fits,
};
use crate::neighbor_off;
use crate::time::{instant_now, Instant};

verus! {

/// The light level of every cell of one chunk, with the time of its last
/// computation.
#[derive(Debug)]
pub struct ChunkLightData {
    pub(crate) last_updated: Instant,
    pub data: [[[u8; 32]; 32]; 32],
}

impl View for ChunkLightData {
    type V = [[[u8; 32]; 32]; 32];

    /// The light levels, indexed `[x][y][z]`.
    closed spec fn view(&self) -> [[[u8; 32]; 32]; 32] {
        self.data
    }
}

impl Clone for ChunkLightData {
    /// A copy with the same cells and time stamps.
    fn clone(&self) -> (r: Self)
        ensures
            r == *self,
    {
        ChunkLightData { last_updated: self.last_updated, data: self.data }
    }
}

/// The view of light data is its `data` field.
pub(crate) proof fn lemma_light_view(c: &ChunkLightData)
    ensures
        c@ == c.data,
{
}

/// Light one level weaker, as it passes from a neighbouring chunk; a level
/// that does not fit a signed byte counts as no light.
pub open spec fn dim(v: u8) -> int {
    if 1 <= v <= 127 {
        v - 1
    } else {
        0
    }
}

/// The light that reaches cell `(x, y, z)` through a face of the chunk from
/// the neighbouring chunks below, above, before (z - 1), behind (z + 1), to
/// the left (x - 1) and to the right (x + 1): one level weaker than the cell
/// across the face, 0 for a cell on no face.
pub open spec fn edge_light(
    below: [[[u8; 32]; 32]; 32],
    above: [[[u8; 32]; 32]; 32],
    z_lo: [[[u8; 32]; 32]; 32],
    z_hi: [[[u8; 32]; 32]; 32],
    x_lo: [[[u8; 32]; 32]; 32],
    x_hi: [[[u8; 32]; 32]; 32],
    x: int,
    y: int,
    z: int,
) -> int {
    let a = if y == 0 { dim(below[x][31][z]) } else { 0 };
    let b = if y == 31 { dim(above[x][0][z]) } else { 0 };
    let c = if z == 0 { dim(z_lo[x][y][31]) } else { 0 };
    let d = if z == 31 { dim(z_hi[x][y][0]) } else { 0 };
    let e = if x == 0 { dim(x_lo[31][y][z]) } else { 0 };
    let f = if x == 31 { dim(x_hi[0][y][z]) } else { 0 };
    vstd::math::max(
        vstd::math::max(vstd::math::max(a, b), vstd::math::max(c, d)),
        vstd::math::max(e, f),
    )
}

/// The light a chunk starts with before spreading, given its neighbours
/// (indexed as [`neighbor_off`] gives): sunlight entering from the bottom
/// layer of the chunk above, and the light that reaches it through its faces.
pub open spec fn neighbor_seed(b: [[[u8; 32]; 32]; 32], n: [&ChunkLightData; 27]) -> spec_fn(
    int,
    int,
    int,
) -> int {
    |x: int, y: int, z: int|
        vstd::math::max(
            sun(b, n[16]@[x][0][z] as int, x, y, z),
            edge_light(n[10]@, n[16]@, n[12]@, n[14]@, n[4]@, n[22]@, x, y, z),
        )
}

/// The cells across the faces of the chunk hold no light level of 128, and
/// the light entering from above passes the top layer without overflowing.
pub open spec fn neighbors_fit(b: [[[u8; 32]; 32]; 32], n: [&ChunkLightData; 27]) -> bool {
    &&& forall|x: int, z: int|
        0 <= x < 32 && 0 <= z < 32 ==> {
            &&& #[trigger] n[10]@[x][31][z] != 128
            &&& n[16]@[x][0][z] != 128
            &&& b[x][31][z] == 0 ==> n[16]@[x][0][z] < 255
        }
    &&& forall|x: int, y: int|
        0 <= x < 32 && 0 <= y < 32 ==> {
            &&& #[trigger] n[12]@[x][y][31] != 128
            &&& n[14]@[x][y][0] != 128
        }
    &&& forall|y: int, z: int|
        0 <= y < 32 && 0 <= z < 32 ==> {
            &&& #[trigger] n[4]@[31][y][z] != 128
            &&& n[22]@[0][y][z] != 128
        }
}

/// `(i, j)` comes before `(px, pz)` in the order in which the edge loop visits
/// pairs.
pub open spec fn visited(i: int, j: int, px: int, pz: int) -> bool {
    i < px || (i == px && j < pz)
}

/// The light that has reached cell `(a, b, c)` through the faces once the
/// edge loop has visited the pairs before `(px, pz)`.
pub open spec fn edge_light_upto(
    below: [[[u8; 32]; 32]; 32],
    above: [[[u8; 32]; 32]; 32],
    z_lo: [[[u8; 32]; 32]; 32],
    z_hi: [[[u8; 32]; 32]; 32],
    x_lo: [[[u8; 32]; 32]; 32],
    x_hi: [[[u8; 32]; 32]; 32],
    px: int,
    pz: int,
    x: int,
    y: int,
    z: int,
) -> int {
    let a = if y == 0 && visited(x, z, px, pz) { dim(below[x][31][z]) } else { 0 };
    let b = if y == 31 && visited(x, z, px, pz) { dim(above[x][0][z]) } else { 0 };
    let c = if z == 0 && visited(x, y, px, pz) { dim(z_lo[x][y][31]) } else { 0 };
    let d = if z == 31 && visited(x, y, px, pz) { dim(z_hi[x][y][0]) } else { 0 };
    let e = if x == 0 && visited(y, z, px, pz) { dim(x_lo[31][y][z]) } else { 0 };
    let f = if x == 31 && visited(y, z, px, pz) { dim(x_hi[0][y][z]) } else { 0 };
    vstd::math::max(
        vstd::math::max(vstd::math::max(a, b), vstd::math::max(c, d)),
        vstd::math::max(e, f),
    )
}

/// The light that the edge loop brings to cell `(a, b, c)` when it visits the
/// pair `(px, pz)`.
pub open spec fn edge_light_step(
    below: [[[u8; 32]; 32]; 32],
    above: [[[u8; 32]; 32]; 32],
    z_lo: [[[u8; 32]; 32]; 32],
    z_hi: [[[u8; 32]; 32]; 32],
    x_lo: [[[u8; 32]; 32]; 32],
    x_hi: [[[u8; 32]; 32]; 32],
    px: int,
    pz: int,
    x: int,
    y: int,
    z: int,
) -> int {
    let a = if y == 0 && x == px && z == pz { dim(below[x][31][z]) } else { 0 };
    let b = if y == 31 && x == px && z == pz { dim(above[x][0][z]) } else { 0 };
    let c = if z == 0 && x == px && y == pz { dim(z_lo[x][y][31]) } else { 0 };
    let d = if z == 31 && x == px && y == pz { dim(z_hi[x][y][0]) } else { 0 };
    let e = if x == 0 && y == px && z == pz { dim(x_lo[31][y][z]) } else { 0 };
    let f = if x == 31 && y == px && z == pz { dim(x_hi[0][y][z]) } else { 0 };
    vstd::math::max(
        vstd::math::max(vstd::math::max(a, b), vstd::math::max(c, d)),
        vstd::math::max(e, f),
    )
}

proof fn lemma_edge_light_next(
    below: [[[u8; 32]; 32]; 32],
    above: [[[u8; 32]; 32]; 32],
    z_lo: [[[u8; 32]; 32]; 32],
    z_hi: [[[u8; 32]; 32]; 32],
    x_lo: [[[u8; 32]; 32]; 32],
    x_hi: [[[u8; 32]; 32]; 32],
    px: int,
    pz: int,
)
    ensures
        forall|a: int, b: int, c: int|
            #[trigger] edge_light_upto(below, above, z_lo, z_hi, x_lo, x_hi, px, pz + 1, a, b, c)
                == vstd::math::max(
                edge_light_upto(below, above, z_lo, z_hi, x_lo, x_hi, px, pz, a, b, c),
                edge_light_step(below, above, z_lo, z_hi, x_lo, x_hi, px, pz, a, b, c),
            ),
{
}

/// One level weaker, as light passes a face; see [`dim`].
fn dim_light(v: u8) -> (r: u8)
    requires
        v != 128,
    ensures
        r as int == dim(v),
{
    if 1 <= v && v <= 127 {
        v - 1
    } else {
        0
    }
}

/// Raises the light of cell `[x][y][z]` to at least `v`.
fn raise(data: &mut [[[u8; 32]; 32]; 32], x: usize, y: usize, z: usize, v: u8)
    requires
        x < 32 && y < 32 && z < 32,
    ensures
        forall|a: int, b: int, c: int|
            in_cube(a, b, c) ==> #[trigger] final(data)[a][b][c] == if a == x && b == y && c == z {
                vstd::math::max(old(data)[a][b][c] as int, v as int)
            } else {
                old(data)[a][b][c] as int
            },
{
    if data[x][y][z] < v {
        data[x][y][z] = v;
    }
}

/// The six raises of the edge loop at the pair `(x, z)`.
fn edge_step(
    data: &mut [[[u8; 32]; 32]; 32],
    below: &[[[u8; 32]; 32]; 32],
    above: &[[[u8; 32]; 32]; 32],
    z_lo: &[[[u8; 32]; 32]; 32],
    z_hi: &[[[u8; 32]; 32]; 32],
    x_lo: &[[[u8; 32]; 32]; 32],
    x_hi: &[[[u8; 32]; 32]; 32],
    x: usize,
    z: usize,
)
    requires
        x < 32,
        z < 32,
        below[x as int][31][z as int] != 128,
        above[x as int][0][z as int] != 128,
        z_lo[x as int][z as int][31] != 128,
        z_hi[x as int][z as int][0] != 128,
        x_lo[31][x as int][z as int] != 128,
        x_hi[0][x as int][z as int] != 128,
    ensures
        forall|a: int, b: int, c: int|
            in_cube(a, b, c) ==> #[trigger] final(data)[a][b][c] as int == vstd::math::max(
                old(data)[a][b][c] as int,
                edge_light_step(*below, *above, *z_lo, *z_hi, *x_lo, *x_hi, x as int, z as int, a, b, c),
            ),
{
    let v1 = dim_light(below[x][31][z]);
    raise(data, x, 0, z, v1);
    let v2 = dim_light(above[x][0][z]);
    raise(data, x, 31, z, v2);
    let v3 = dim_light(z_lo[x][z][31]);
    raise(data, x, z, 0, v3);
    let v4 = dim_light(z_hi[x][z][0]);
    raise(data, x, z, 31, v4);
    let v5 = dim_light(x_lo[31][x][z]);
    raise(data, 0, x, z, v5);
    let v6 = dim_light(x_hi[0][x][z]);
    raise(data, 31, x, z, v6);
}

/// Raises the light of each cell on a face of the chunk to the light that
/// reaches it from the neighbouring chunk across that face.
fn add_edge_light(
    data: &mut [[[u8; 32]; 32]; 32],
    below: &[[[u8; 32]; 32]; 32],
    above: &[[[u8; 32]; 32]; 32],
    z_lo: &[[[u8; 32]; 32]; 32],
    z_hi: &[[[u8; 32]; 32]; 32],
    x_lo: &[[[u8; 32]; 32]; 32],
    x_hi: &[[[u8; 32]; 32]; 32],
)
    requires
        forall|x: int, z: int|
            0 <= x < 32 && 0 <= z < 32 ==> #[trigger] below[x][31][z] != 128 && above[x][0][z] != 128,
        forall|x: int, y: int|
            0 <= x < 32 && 0 <= y < 32 ==> #[trigger] z_lo[x][y][31] != 128 && z_hi[x][y][0] != 128,
        forall|y: int, z: int|
            0 <= y < 32 && 0 <= z < 32 ==> #[trigger] x_lo[31][y][z] != 128 && x_hi[0][y][z] != 128,
    ensures
        forall|a: int, b: int, c: int|
            in_cube(a, b, c) ==> #[trigger] final(data)[a][b][c] as int == vstd::math::max(
                old(data)[a][b][c] as int,
                edge_light(*below, *above, *z_lo, *z_hi, *x_lo, *x_hi, a, b, c),
            ),
{
    let ghost d0 = *data;
    let mut x: usize = 0;
    while x < 32
        invariant
            x <= 32,
            forall|x: int, z: int|
                0 <= x < 32 && 0 <= z < 32 ==> #[trigger] below[x][31][z] != 128 && above[x][0][z]
                    != 128,
            forall|x: int, y: int|
                0 <= x < 32 && 0 <= y < 32 ==> #[trigger] z_lo[x][y][31] != 128 && z_hi[x][y][0]
                    != 128,
            forall|y: int, z: int|
                0 <= y < 32 && 0 <= z < 32 ==> #[trigger] x_lo[31][y][z] != 128 && x_hi[0][y][z]
                    != 128,
            forall|a: int, b: int, c: int|
                in_cube(a, b, c) ==> #[trigger] data[a][b][c] as int == vstd::math::max(
                    d0[a][b][c] as int,
                    edge_light_upto(*below, *above, *z_lo, *z_hi, *x_lo, *x_hi, x as int, 0, a, b, c),
                ),
        decreases 32 - x,
    {
        let mut z: usize = 0;
        while z < 32
            invariant
                x < 32,
                z <= 32,
                forall|x: int, z: int|
                    0 <= x < 32 && 0 <= z < 32 ==> #[trigger] below[x][31][z] != 128 && above[x][0][z]
                        != 128,
                forall|x: int, y: int|
                    0 <= x < 32 && 0 <= y < 32 ==> #[trigger] z_lo[x][y][31] != 128 && z_hi[x][y][0]
                        != 128,
                forall|y: int, z: int|
                    0 <= y < 32 && 0 <= z < 32 ==> #[trigger] x_lo[31][y][z] != 128 && x_hi[0][y][z]
                        != 128,
                forall|a: int, b: int, c: int|
                    in_cube(a, b, c) ==> #[trigger] data[a][b][c] as int == vstd::math::max(
                        d0[a][b][c] as int,
                        edge_light_upto(
                            *below,
                            *above,
                            *z_lo,
                            *z_hi,
                            *x_lo,
                            *x_hi,
                            x as int,
                            z as int,
                            a,
                            b,
                            c,
                        ),
                    ),
            decreases 32 - z,
        {
            edge_step(data, below, above, z_lo, z_hi, x_lo, x_hi, x, z);
            proof {
                lemma_edge_light_next(*below, *above, *z_lo, *z_hi, *x_lo, *x_hi, x as int, z as int);
            }
            z = z + 1;
        }
        x = x + 1;
    }
}

impl Default for ChunkLightData {
    fn default() -> (r: Self)
        ensures
            forall|x: int, y: int, z: int| in_cube(x, y, z) ==> #[trigger] r@[x][y][z] == 0,
    {
        Self { last_updated: instant_now(), data: crate::chunk::zeroed() }
    }
}

impl ChunkLightData {
    /// The time of the last computation.
    pub closed spec fn updated_at(&self) -> Instant {
        self.last_updated
    }

    /// A chunk without light, stamped with the current time.
    pub fn new() -> (r: Self)
        ensures
            forall|x: int, y: int, z: int| in_cube(x, y, z) ==> #[trigger] r@[x][y][z] == 0,
    {
        Self::default()
    }

    /// The light of `chunk` on its own (see [`ChunkLightData::calculate`]).
    pub fn new_simple(chunk: &ChunkBlockData) -> (r: Self)
        ensures
            forall|x: int, y: int, z: int|
                in_cube(x, y, z) ==> #[trigger] r@[x][y][z] as int == light_at(chunk@, sky_seed(chunk@, 0), x, y, z),
    {
        let mut r = Self::new();
        r.calculate(chunk);
        r
    }

    pub fn last_updated(&self) -> (t: Instant)
        ensures
            t == self.updated_at(),
    {
        self.last_updated
    }

    /// Computes the light of `chunk` on its own: no light enters its columns
    /// from above, so sunlight ramps up by one level per empty cell from the
    /// top layer down; then it spreads and is halved inside blocks. Stamps
    /// the result with the current time.
    pub fn calculate(&mut self, chunk: &ChunkBlockData)
        ensures
            forall|x: int, y: int, z: int|
                in_cube(x, y, z) ==> #[trigger] final(self)@[x][y][z] as int == light_at(
                    chunk@,
                    sky_seed(chunk@, 0),
                    x,
                    y,
                    z,
                ),
            forall|x: int, y: int, z: int| in_cube(x, y, z) ==> #[trigger] final(self)@[x][y][z] <= 15,
    {
        proof {
            lemma_block_view(chunk);
        }
        let mut light = [[0u8; 32]; 32];
        sunlight(&mut self.data, &chunk.data, &mut light);
        let ghost seed = sky_seed(chunk@, 0);
        assert forall|x: int, y: int, z: int| in_cube(x, y, z) implies 0 <= #[trigger] seed(x, y, z)
            <= 15 by {
            lemma_sun_bounds(chunk@, 0, x, y, z);
        }
        proof {
            lemma_blurred_bounded(seed, 15);
        }
        finish_light(&mut self.data, &chunk.data, Ghost(seed));
        self.last_updated = instant_now();
    }

    /// Computes the light of `chunk` within its world: `neighbors` holds the
    /// light of the 3×3×3 chunks around it, indexed as [`neighbor_off`] gives.
    /// Sunlight enters each column from the bottom layer of the chunk above;
    /// each cell on a face of the chunk gets at least the light of the cell
    /// across that face, one level weaker; then the light spreads and is
    /// halved inside blocks. Stamps the result with the current time.
    pub fn calculate_complex(&mut self, chunk: &ChunkBlockData, neighbors: &[&ChunkLightData; 27])
        requires
            neighbors_fit(chunk@, *neighbors),
        ensures
            forall|x: int, y: int, z: int|
                in_cube(x, y, z) ==> #[trigger] final(self)@[x][y][z] as int == light_at(
                    chunk@,
                    neighbor_seed(chunk@, *neighbors),
                    x,
                    y,
                    z,
                ),
    {
        proof {
            lemma_block_view(chunk);
            lemma_light_view(neighbors[4]);
            lemma_light_view(neighbors[10]);
            lemma_light_view(neighbors[12]);
            lemma_light_view(neighbors[14]);
            lemma_light_view(neighbors[16]);
            lemma_light_view(neighbors[22]);
        }
        let mut light = [[0u8; 32]; 32];
        let src = neighbors[neighbor_off(1, 2, 1)];
        let mut x: usize = 0;
        while x < 32
            invariant
                x <= 32,
                src == neighbors[16],
                forall|a: int, c: int|
                    0 <= a < x && 0 <= c < 32 ==> #[trigger] light[a][c] == src.data[a][0][c],
            decreases 32 - x,
        {
            let mut z: usize = 0;
            while z < 32
                invariant
                    x < 32,
                    z <= 32,
                    src == neighbors[16],
                    forall|a: int, c: int|
                        (0 <= a < x && 0 <= c < 32) || (a == x && 0 <= c < z) ==> #[trigger] light[a][c]
                            == src.data[a][0][c],
                decreases 32 - z,
            {
                light[x][z] = src.data[x][0][z];
                z = z + 1;
            }
            x = x + 1;
        }
        let ghost top = light;
        assert forall|x: int, z: int|
            0 <= x < 32 && 0 <= z < 32 && #[trigger] chunk.data[x][31][z] == 0 implies top[x][z]
            < 255 by {
            assert(neighbors[10]@[x][31][z] != 128);
        }
        sunlight(&mut self.data, &chunk.data, &mut light);
        let ghost d1 = self.data;
        add_edge_light(
            &mut self.data,
            &neighbors[neighbor_off(1, 0, 1)].data,
            &neighbors[neighbor_off(1, 2, 1)].data,
            &neighbors[neighbor_off(1, 1, 0)].data,
            &neighbors[neighbor_off(1, 1, 2)].data,
            &neighbors[neighbor_off(0, 1, 1)].data,
            &neighbors[neighbor_off(2, 1, 1)].data,
        );
        let ghost seed = neighbor_seed(chunk@, *neighbors);
        assert forall|x: int, y: int, z: int| in_cube(x, y, z) implies #[trigger] as_fn(self.data)(
            x,
            y,
            z,
        ) == seed(x, y, z) && 0 <= seed(x, y, z) <= 127 by {
            assert(top[x][z] == neighbors[16]@[x][0][z]);
            lemma_sun_bounds(chunk@, top[x][z] as int, x, y, z);
        }
        finish_light(&mut self.data, &chunk.data, Ghost(seed));
        self.last_updated = instant_now();
    }
}

} // verus!