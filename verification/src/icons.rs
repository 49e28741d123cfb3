//! The icons of blocks in the inventory: a small isometric view of a block,
//! drawn from the tiles of its top, front and right sides in the block
//! texture atlas, the front shaded a little and the right side more.
use vstd::prelude::*;
use crate::block_type::BlockType;
use crate::side::Side;

verus! {

/// A transparent black pixel.
pub open spec fn clear() -> [u8; 4] {
    [0u8, 0u8, 0u8, 0u8]
}

/// The picture that has `p` at `(x, y)` and is `f` elsewhere.
pub open spec fn put(f: spec_fn(int, int) -> [u8; 4], x: int, y: int, p: [u8; 4]) -> spec_fn(int, int) -> [u8; 4] {
    |u: int, v: int| if u == x && v == y { p } else { f(u, v) }
}

/// `(x, y)` is pixel number `y * w + x`; different pixels have different
/// numbers, all below `w * h`.
proof fn lemma_pixel_index(w: int, h: int, x: int, y: int, u: int, v: int)
    requires
        0 <= x < w,
        0 <= y < h,
        0 <= u < w,
        0 <= v < h,
    ensures
        0 <= y * w + x < w * h,
        (x != u || y != v) ==> y * w + x != v * w + u,
{
    assert(0 <= y * w + x < w * h) by (nonlinear_arith)
        requires
            0 <= x < w,
            0 <= y < h,
    ;
    assert((x != u || y != v) ==> y * w + x != v * w + u) by (nonlinear_arith)
        requires
            0 <= x < w,
            0 <= y < h,
            0 <= u < w,
            0 <= v < h,
    ;
}

/// An RGBA picture of `width` × `height` pixels, row by row.
pub struct Image {
    width: u32,
    height: u32,
    pixels: Vec<[u8; 4]>,
}

impl Image {
    /// Whether there is one pixel for each place of the picture.
    pub closed spec fn wf(&self) -> bool {
        self.pixels@.len() == self.width * self.height
    }

    /// The width in pixels.
    pub closed spec fn w(&self) -> nat {
        self.width as nat
    }

    /// The height in pixels.
    pub closed spec fn h(&self) -> nat {
        self.height as nat
    }

    /// The pixel at `(x, y)`; outside the picture, transparent black.
    pub closed spec fn picture(&self) -> spec_fn(int, int) -> [u8; 4] {
        let (w, h, p) = (self.width as int, self.height as int, self.pixels@);
        |x: int, y: int| if 0 <= x < w && 0 <= y < h { p[y * w + x] } else { clear() }
    }

    /// A transparent black picture of `width` × `height` pixels.
    pub fn new(width: u32, height: u32) -> (r: Self)
        requires
            width * height * 4 <= usize::MAX,
        ensures
            r.wf(),
            r.w() == width,
            r.h() == height,
            r.picture() == (|x: int, y: int| clear()),
    {
        let n = width as usize * height as usize;
        let mut pixels: Vec<[u8; 4]> = Vec::new();
        let mut i: usize = 0;
        while i < n
            invariant
                i <= n,
                n == width * height,
                pixels@.len() == i,
                forall|k: int| 0 <= k < i ==> #[trigger] pixels@[k] == clear(),
            decreases n - i,
        {
            pixels.push([0, 0, 0, 0]);
            i = i + 1;
        }
        let r = Self { width, height, pixels };
        assert(r.picture() =~= (|x: int, y: int| clear())) by {
            assert forall|x: int, y: int| #[trigger] r.picture()(x, y) == clear() by {
                if 0 <= x < width && 0 <= y < height {
                    lemma_pixel_index(width as int, height as int, x, y, x, y);
                }
            }
        }
        r
    }

    /// A picture of `width` × `height` pixels from its pixels, row by row;
    /// `None` when their number does not match.
    pub fn from_pixels(width: u32, height: u32, pixels: Vec<[u8; 4]>) -> (r: Option<Self>)
        ensures
            (pixels@.len() == width * height) == (r is Some),
            r matches Some(img) ==> img.wf() && img.w() == width && img.h() == height && forall|x: int, y: int|
                0 <= x < width && 0 <= y < height ==> #[trigger] img.picture()(x, y) == pixels@[y * width + x],
    {
        assert((width as int) * (height as int) <= u64::MAX) by (nonlinear_arith)
            requires
                width <= u32::MAX,
                height <= u32::MAX,
        ;
        if (pixels.len() as u64) == (width as u64) * (height as u64) {
            Some(Self { width, height, pixels })
        } else {
            None
        }
    }

    /// The width in pixels.
    pub fn width(&self) -> (r: u32)
        ensures
            r == self.w(),
    {
        self.width
    }

    /// The height in pixels.
    pub fn height(&self) -> (r: u32)
        ensures
            r == self.h(),
    {
        self.height
    }

    /// The pixels, row by row.
    pub fn pixels(&self) -> (r: &Vec<[u8; 4]>)
        requires
            self.wf(),
        ensures
            r@.len() == self.w() * self.h(),
            forall|x: int, y: int|
                0 <= x < self.w() && 0 <= y < self.h() ==> #[trigger] self.picture()(x, y) == r@[y * self.w() + x],
    {
        &self.pixels
    }

    /// The pixel at `(x, y)`.
    pub fn get_pixel(&self, x: u32, y: u32) -> (r: [u8; 4])
        requires
            self.wf(),
            x < self.w(),
            y < self.h(),
        ensures
            r == self.picture()(x as int, y as int),
    {
        proof {
            lemma_pixel_index(self.width as int, self.height as int, x as int, y as int, x as int, y as int);
        }
        let n = self.pixels.len();
        assert(y * self.width <= y * self.width + x < n);
        self.pixels[y as usize * self.width as usize + x as usize]
    }

    /// Sets the pixel at `(x, y)` to `p`.
    pub fn put_pixel(&mut self, x: u32, y: u32, p: [u8; 4])
        requires
            old(self).wf(),
            x < old(self).w(),
            y < old(self).h(),
        ensures
            final(self).wf(),
            final(self).w() == old(self).w(),
            final(self).h() == old(self).h(),
            final(self).picture() == put(old(self).picture(), x as int, y as int, p),
    {
        proof {
            lemma_pixel_index(self.width as int, self.height as int, x as int, y as int, x as int, y as int);
        }
        let ghost before = self.picture();
        let n = self.pixels.len();
        assert(y * self.width <= y * self.width + x < n);
        let i = y as usize * self.width as usize + x as usize;
        self.pixels.set(i, p);
        proof {
            let (w, h) = (self.width as int, self.height as int);
            assert forall|u: int, v: int| #[trigger] self.picture()(u, v) == put(before, x as int, y as int, p)(u, v) by {
                if 0 <= u < w && 0 <= v < h {
                    lemma_pixel_index(w, h, u, v, x as int, y as int);
                }
            }
            assert(self.picture() =~= put(before, x as int, y as int, p));
        }
    }
}

/// The side whose tile the `k`-th pass draws: the top, then the front,
/// then the right side.
pub open spec fn pass_side(k: int) -> Side {
    if k == 0 {
        Side::Top
    } else if k == 1 {
        Side::Front
    } else {
        Side::Right
    }
}

/// Where pixel `(x, y)` of a tile of `ts` pixels lands in the icon in the
/// `k`-th pass: the top is squashed into a diamond at the top of the icon,
/// the front into the lower left half, the right side into the lower right.
pub open spec fn target(k: int, ts: int, x: int, y: int) -> (int, int) {
    if k == 0 {
        let tx = ts / 2 + x / 2 - y / 2;
        (tx, tx / 2 + y / 2 - ts / 4)
    } else if k == 1 {
        let tx = x / 2;
        (tx, ts / 4 + y / 2 + tx / 2)
    } else {
        let tx = ts / 2 + x / 2;
        (tx, ts / 4 + y / 2 + (ts - tx) / 2)
    }
}

/// Where the `k`-th pass reads pixel `(x, y)` of tile `tex` in the atlas,
/// whose tiles are `ts` wide and `2 * ts` apart: the top as it is, the
/// sides upside down.
pub open spec fn source(k: int, ts: int, tex: int, x: int, y: int) -> (int, int) {
    if k == 0 {
        (x, y + tex * ts * 2)
    } else {
        (x, (ts - y) + tex * ts * 2)
    }
}

/// A pixel as the `k`-th pass draws it: the front loses a sixth of its
/// colour, the right side a quarter.
pub open spec fn shade(k: int, p: [u8; 4]) -> [u8; 4] {
    if k == 0 {
        p
    } else if k == 1 {
        [(p[0] - p[0] / 6) as u8, (p[1] - p[1] / 6) as u8, (p[2] - p[2] / 6) as u8, p[3]]
    } else {
        [(p[0] - p[0] / 4) as u8, (p[1] - p[1] / 4) as u8, (p[2] - p[2] / 4) as u8, p[3]]
    }
}

/// `f` after the `k`-th pass drew pixels `(x, 0)` up to `(x, n - 1)` of
/// tile `tex` of `atlas`.
pub open spec fn paint_column(
    f: spec_fn(int, int) -> [u8; 4],
    atlas: spec_fn(int, int) -> [u8; 4],
    k: int,
    ts: int,
    tex: int,
    x: int,
    n: int,
) -> spec_fn(int, int) -> [u8; 4]
    decreases n,
{
    if n <= 0 {
        f
    } else {
        let g = paint_column(f, atlas, k, ts, tex, x, n - 1);
        let (sx, sy) = source(k, ts, tex, x, n - 1);
        let (tx, ty) = target(k, ts, x, n - 1);
        put(g, tx, ty, shade(k, atlas(sx, sy)))
    }
}

/// `f` after the `k`-th pass drew columns `0` up to `m - 1` of tile `tex`.
pub open spec fn paint_columns(
    f: spec_fn(int, int) -> [u8; 4],
    atlas: spec_fn(int, int) -> [u8; 4],
    k: int,
    ts: int,
    tex: int,
    m: int,
) -> spec_fn(int, int) -> [u8; 4]
    decreases m,
{
    if m <= 0 {
        f
    } else {
        paint_column(paint_columns(f, atlas, k, ts, tex, m - 1), atlas, k, ts, tex, m - 1, ts)
    }
}

/// The tile a block shows on the side of the `k`-th pass.
pub open spec fn pass_tile(b: BlockType, k: int) -> int {
    b.tex_spec()[pass_side(k).index() as int] as int
}

/// The icon of block type `b`: its top, front and right tiles from `atlas`
/// drawn in turn onto a transparent picture, later pixels over earlier.
pub open spec fn icon_picture(atlas: spec_fn(int, int) -> [u8; 4], b: BlockType, ts: int) -> spec_fn(int, int) -> [u8; 4] {
    let blank = |x: int, y: int| clear();
    paint_columns(
        paint_columns(paint_columns(blank, atlas, 0, ts, pass_tile(b, 0), ts), atlas, 1, ts, pass_tile(b, 1), ts),
        atlas,
        2,
        ts,
        pass_tile(b, 2),
        ts,
    )
}

/// Whether the `k`-th pass can draw pixel `(x, y)` of tile `tex`: the tile
/// offset and the source row fit a `u32`, the source lies in an atlas of
/// `aw` × `ah` pixels, no step of the target goes below 0, and the target
/// lies in the icon.
pub open spec fn write_ok(k: int, ts: int, tex: int, aw: int, ah: int, x: int, y: int) -> bool {
    let (sx, sy) = source(k, ts, tex, x, y);
    let (tx, ty) = target(k, ts, x, y);
    &&& tex * ts * 2 <= u32::MAX
    &&& sy <= u32::MAX
    &&& 0 <= sx < aw && 0 <= sy < ah
    &&& k == 0 ==> ts / 2 + x / 2 >= y / 2 && tx / 2 + y / 2 >= ts / 4
    &&& 0 <= tx < ts && 0 <= ty < ts
}

/// Whether every pass can draw every pixel of the icon of `b`.
pub open spec fn icon_ok(atlas: &Image, b: BlockType, ts: int) -> bool {
    forall|k: int, x: int, y: int|
        0 <= k < 3 && 0 <= x < ts && 0 <= y < ts ==> #[trigger] write_ok(
            k,
            ts,
            pass_tile(b, k),
            atlas.w() as int,
            atlas.h() as int,
            x,
            y,
        )
}

/// Draws the `k`-th pass of an icon: every pixel of tile `tex` of `atlas`,
/// column by column.
fn paint_pass(img: &mut Image, atlas: &Image, k: u8, tex: u8, tile_size: u32)
    requires
        old(img).wf(),
        atlas.wf(),
        k < 3,
        old(img).w() == tile_size && old(img).h() == tile_size,
        forall|x: int, y: int|
            0 <= x < tile_size && 0 <= y < tile_size ==> #[trigger] write_ok(
                k as int,
                tile_size as int,
                tex as int,
                atlas.w() as int,
                atlas.h() as int,
                x,
                y,
            ),
    ensures
        final(img).wf(),
        final(img).w() == tile_size && final(img).h() == tile_size,
        final(img).picture() == paint_columns(old(img).picture(), atlas.picture(), k as int, tile_size as int, tex as int, tile_size as int),
{
    let ts = tile_size;
    let mut x: u32 = 0;
    while x < ts
        invariant
            x <= ts,
            ts == tile_size,
            k < 3,
            img.wf(),
            atlas.wf(),
            img.w() == ts && img.h() == ts,
            forall|a: int, b: int|
                0 <= a < ts && 0 <= b < ts ==> #[trigger] write_ok(k as int, ts as int, tex as int, atlas.w() as int, atlas.h() as int, a, b),
            img.picture() == paint_columns(old(img).picture(), atlas.picture(), k as int, ts as int, tex as int, x as int),
        decreases ts - x,
    {
        let mut y: u32 = 0;
        while y < ts
            invariant
                x < ts,
                y <= ts,
                ts == tile_size,
                k < 3,
                img.wf(),
                atlas.wf(),
                img.w() == ts && img.h() == ts,
                forall|a: int, b: int|
                    0 <= a < ts && 0 <= b < ts ==> #[trigger] write_ok(k as int, ts as int, tex as int, atlas.w() as int, atlas.h() as int, a, b),
                img.picture() == paint_column(
                    paint_columns(old(img).picture(), atlas.picture(), k as int, ts as int, tex as int, x as int),
                    atlas.picture(),
                    k as int,
                    ts as int,
                    tex as int,
                    x as int,
                    y as int,
                ),
            decreases ts - y,
        {
            assert(write_ok(k as int, ts as int, tex as int, atlas.w() as int, atlas.h() as int, x as int, y as int));
            let yoff = tex as u32 * ts * 2;
            if k == 0 {
                let p = atlas.get_pixel(x, y + yoff);
                let tx = ts / 2 + x / 2 - y / 2;
                let ty = tx / 2 + y / 2 - ts / 4;
                img.put_pixel(tx, ty, p);
            } else if k == 1 {
                let p = atlas.get_pixel(x, (ts - y) + yoff);
                let p = [p[0] - p[0] / 6, p[1] - p[1] / 6, p[2] - p[2] / 6, p[3]];
                let tx = x / 2;
                let ty = ts / 4 + y / 2 + tx / 2;
                img.put_pixel(tx, ty, p);
            } else {
                let p = atlas.get_pixel(x, (ts - y) + yoff);
                let p = [p[0] - p[0] / 4, p[1] - p[1] / 4, p[2] - p[2] / 4, p[3]];
                let tx = ts / 2 + x / 2;
                let ty = ts / 4 + y / 2 + (ts - tx) / 2;
                img.put_pixel(tx, ty, p);
            }
            y = y + 1;
        }
        x = x + 1;
    }
}

/// Draws the icon of each block type of `blocks` from the tiles of `atlas`,
/// each `tile_size` pixels square: an isometric view of the block's top,
/// front and right side.
pub fn build_block_icons(atlas: &Image, blocks: &Vec<BlockType>, tile_size: u32) -> (r: Vec<Image>)
    requires
        atlas.wf(),
        tile_size * tile_size * 4 <= usize::MAX,
        forall|i: int| 0 <= i < blocks.len() ==> #[trigger] icon_ok(atlas, blocks@[i], tile_size as int),
    ensures
        r.len() == blocks.len(),
        forall|i: int|
            0 <= i < r.len() ==> {
                &&& #[trigger] r@[i].wf()
                &&& r@[i].w() == tile_size && r@[i].h() == tile_size
                &&& r@[i].picture() == icon_picture(atlas.picture(), blocks@[i], tile_size as int)
            },
{
    let mut ret: Vec<Image> = Vec::new();
    let mut i: usize = 0;
    while i < blocks.len()
        invariant
            i <= blocks.len(),
            atlas.wf(),
            tile_size * tile_size * 4 <= usize::MAX,
            forall|j: int| 0 <= j < blocks.len() ==> #[trigger] icon_ok(atlas, blocks@[j], tile_size as int),
            ret.len() == i,
            forall|j: int|
                0 <= j < i ==> {
                    &&& #[trigger] ret@[j].wf()
                    &&& ret@[j].w() == tile_size && ret@[j].h() == tile_size
                    &&& ret@[j].picture() == icon_picture(atlas.picture(), blocks@[j], tile_size as int)
                },
        decreases blocks.len() - i,
    {
        let block = &blocks[i];
        assert(icon_ok(atlas, blocks@[i as int], tile_size as int));
        let mut img = Image::new(tile_size, tile_size);
        let tiles = [block.tex_top(), block.tex_front(), block.tex_right()];
        proof {
            let ts = tile_size as int;
            assert forall|k: int, x: int, y: int| 0 <= k < 3 && 0 <= x < ts && 0 <= y < ts implies #[trigger] write_ok(
                k,
                ts,
                tiles[k] as int,
                atlas.w() as int,
                atlas.h() as int,
                x,
                y,
            ) by {
                assert(write_ok(k, ts, pass_tile(blocks@[i as int], k), atlas.w() as int, atlas.h() as int, x, y));
            }
        }
        paint_pass(&mut img, atlas, 0, tiles[0], tile_size);
        paint_pass(&mut img, atlas, 1, tiles[1], tile_size);
        paint_pass(&mut img, atlas, 2, tiles[2], tile_size);
        ret.push(img);
        i = i + 1;
    }
    ret
}


/// Whether the `k`-th pass draws pixel `(x, y)` of its tile onto `(u, v)`.
pub open spec fn hits(k: int, ts: int, x: int, y: int, u: int, v: int) -> bool {
    target(k, ts, x, y) == (u, v)
}

/// What the `k`-th pass draws for pixel `(x, y)` of tile `tex`.
pub open spec fn drawn(atlas: spec_fn(int, int) -> [u8; 4], k: int, ts: int, tex: int, x: int, y: int) -> [u8; 4] {
    shade(k, atlas(source(k, ts, tex, x, y).0, source(k, ts, tex, x, y).1))
}

/// After drawing the first `n` pixels of column `x`, a pixel that none of
/// them lands on keeps its colour, and one that some land on shows one of
/// them.
proof fn lemma_paint_column_at(
    f: spec_fn(int, int) -> [u8; 4],
    atlas: spec_fn(int, int) -> [u8; 4],
    k: int,
    ts: int,
    tex: int,
    x: int,
    n: int,
    u: int,
    v: int,
)
    ensures
        (forall|y: int| 0 <= y < n ==> !#[trigger] hits(k, ts, x, y, u, v))
            ==> paint_column(f, atlas, k, ts, tex, x, n)(u, v) == f(u, v),
        (exists|y: int| 0 <= y < n && #[trigger] hits(k, ts, x, y, u, v)) ==> exists|y: int|
            0 <= y < n && #[trigger] hits(k, ts, x, y, u, v) && paint_column(f, atlas, k, ts, tex, x, n)(u, v)
                == drawn(atlas, k, ts, tex, x, y),
    decreases n,
{
    if n > 0 {
        lemma_paint_column_at(f, atlas, k, ts, tex, x, n - 1, u, v);
        if hits(k, ts, x, n - 1, u, v) {
            assert(paint_column(f, atlas, k, ts, tex, x, n)(u, v) == drawn(atlas, k, ts, tex, x, n - 1));
        } else {
            assert(paint_column(f, atlas, k, ts, tex, x, n)(u, v) == paint_column(f, atlas, k, ts, tex, x, n - 1)(u, v));
            assert forall|y: int| 0 <= y < n && #[trigger] hits(k, ts, x, y, u, v) implies y < n - 1 by {}
        }
    }
}

/// After drawing the first `m` columns of a tile, a pixel that none of
/// their pixels lands on keeps its colour, and one that some land on shows
/// one of them.
proof fn lemma_paint_columns_at(
    f: spec_fn(int, int) -> [u8; 4],
    atlas: spec_fn(int, int) -> [u8; 4],
    k: int,
    ts: int,
    tex: int,
    m: int,
    u: int,
    v: int,
)
    ensures
        (forall|x: int, y: int| 0 <= x < m && 0 <= y < ts ==> !#[trigger] hits(k, ts, x, y, u, v))
            ==> paint_columns(f, atlas, k, ts, tex, m)(u, v) == f(u, v),
        (exists|x: int, y: int| 0 <= x < m && 0 <= y < ts && #[trigger] hits(k, ts, x, y, u, v)) ==> exists|
            x: int,
            y: int,
        |
            0 <= x < m && 0 <= y < ts && #[trigger] hits(k, ts, x, y, u, v) && paint_columns(
                f,
                atlas,
                k,
                ts,
                tex,
                m,
            )(u, v) == drawn(atlas, k, ts, tex, x, y),
    decreases m,
{
    if m > 0 {
        let g = paint_columns(f, atlas, k, ts, tex, m - 1);
        lemma_paint_columns_at(f, atlas, k, ts, tex, m - 1, u, v);
        lemma_paint_column_at(g, atlas, k, ts, tex, m - 1, ts, u, v);
        if exists|y: int| 0 <= y < ts && #[trigger] hits(k, ts, m - 1, y, u, v) {
            let y = choose|y: int|
                0 <= y < ts && #[trigger] hits(k, ts, m - 1, y, u, v) && paint_column(g, atlas, k, ts, tex, m - 1, ts)(u, v)
                    == drawn(atlas, k, ts, tex, m - 1, y);
            assert(hits(k, ts, m - 1, y, u, v));
        } else {
            assert forall|x: int, y: int| 0 <= x < m && 0 <= y < ts && #[trigger] hits(k, ts, x, y, u, v) implies x < m
                - 1 by {
                if x == m - 1 {
                    assert(hits(k, ts, m - 1, y, u, v));
                }
            }
            assert forall|y: int| 0 <= y < ts implies !#[trigger] hits(k, ts, m - 1, y, u, v) by {}
        }
    }
}

/// A pixel `p` with each colour channel reduced by its `d`-th part
/// (rounding the part down); alpha as it is.
pub open spec fn dimmed(p: [u8; 4], d: int) -> [u8; 4] {
    [(p[0] - (p[0] as int) / d) as u8, (p[1] - (p[1] as int) / d) as u8, (p[2] - (p[2] as int) / d) as u8, p[3]]
}

/// Where pixel `(x, y)` of a tile of `ts` pixels lands in the front half
/// of an icon: `x / 2` across, and down by a quarter tile, half of `y` and
/// a quarter of `x` (the face slants down to the right).
pub open spec fn front_spot(ts: int, x: int, y: int) -> (int, int) {
    (x / 2, ts / 4 + y / 2 + (x / 2) / 2)
}

/// Where pixel `(x, y)` of a tile of `ts` pixels lands in the right half
/// of an icon: `ts / 2 + x / 2` across, and down by a quarter tile, half of
/// `y` and a quarter of the distance to the right edge.
pub open spec fn right_spot(ts: int, x: int, y: int) -> (int, int) {
    (ts / 2 + x / 2, ts / 4 + y / 2 + (ts - (ts / 2 + x / 2)) / 2)
}

/// The front of an icon is the block's front tile, turned upside down and
/// a sixth darker: every pixel `(u, v)` of the left half of the icon that a
/// pixel of the tile lands on (see [`front_spot`]) shows pixel
/// `(x, ts - y)` of the block's front tile for one `(x, y)` landing there.
/// Tiles lie `2 * ts` rows apart in the atlas.
pub proof fn lemma_icon_front(atlas: spec_fn(int, int) -> [u8; 4], b: BlockType, ts: int, u: int, v: int)
    requires
        0 <= u < ts / 2,
        exists|x: int, y: int| 0 <= x < ts && 0 <= y < ts && #[trigger] front_spot(ts, x, y) == (u, v),
    ensures
        exists|x: int, y: int|
            0 <= x < ts && 0 <= y < ts && #[trigger] front_spot(ts, x, y) == (u, v) && icon_picture(atlas, b, ts)(u, v)
                == dimmed(atlas(x, (ts - y) + b.tex_spec()[Side::Front.index() as int] * ts * 2), 6),
{
    let blank = |x: int, y: int| clear();
    let p0 = paint_columns(blank, atlas, 0, ts, pass_tile(b, 0), ts);
    let p1 = paint_columns(p0, atlas, 1, ts, pass_tile(b, 1), ts);
    lemma_paint_columns_at(p1, atlas, 2, ts, pass_tile(b, 2), ts, u, v);
    lemma_paint_columns_at(p0, atlas, 1, ts, pass_tile(b, 1), ts, u, v);
    assert forall|x: int, y: int| 0 <= x < ts && 0 <= y < ts implies !#[trigger] hits(2, ts, x, y, u, v) by {}
    let (x0, y0) = choose|x: int, y: int| 0 <= x < ts && 0 <= y < ts && #[trigger] front_spot(ts, x, y) == (u, v);
    assert(hits(1, ts, x0, y0, u, v));
    let (x, y) = choose|x: int, y: int|
        0 <= x < ts && 0 <= y < ts && #[trigger] hits(1, ts, x, y, u, v) && p1(u, v) == drawn(atlas, 1, ts, pass_tile(b, 1), x, y);
    assert(front_spot(ts, x, y) == (u, v));
    assert(icon_picture(atlas, b, ts)(u, v) == dimmed(atlas(x, (ts - y) + b.tex_spec()[Side::Front.index() as int] * ts * 2), 6));
}

/// The right side of an icon is the block's right tile, turned upside down
/// and a quarter darker: every pixel `(u, v)` that a pixel of the tile lands
/// on (see [`right_spot`]) shows pixel `(x, ts - y)` of the block's right
/// tile for one `(x, y)` landing there.
pub proof fn lemma_icon_right(atlas: spec_fn(int, int) -> [u8; 4], b: BlockType, ts: int, u: int, v: int)
    requires
        exists|x: int, y: int| 0 <= x < ts && 0 <= y < ts && #[trigger] right_spot(ts, x, y) == (u, v),
    ensures
        exists|x: int, y: int|
            0 <= x < ts && 0 <= y < ts && #[trigger] right_spot(ts, x, y) == (u, v) && icon_picture(atlas, b, ts)(u, v)
                == dimmed(atlas(x, (ts - y) + b.tex_spec()[Side::Right.index() as int] * ts * 2), 4),
{
    let blank = |x: int, y: int| clear();
    let p0 = paint_columns(blank, atlas, 0, ts, pass_tile(b, 0), ts);
    let p1 = paint_columns(p0, atlas, 1, ts, pass_tile(b, 1), ts);
    lemma_paint_columns_at(p1, atlas, 2, ts, pass_tile(b, 2), ts, u, v);
    let (x0, y0) = choose|x: int, y: int| 0 <= x < ts && 0 <= y < ts && #[trigger] right_spot(ts, x, y) == (u, v);
    assert(hits(2, ts, x0, y0, u, v));
    let (x, y) = choose|x: int, y: int|
        0 <= x < ts && 0 <= y < ts && #[trigger] hits(2, ts, x, y, u, v) && icon_picture(atlas, b, ts)(u, v) == drawn(
            atlas,
            2,
            ts,
            pass_tile(b, 2),
            x,
            y,
        );
    assert(right_spot(ts, x, y) == (u, v));
    assert(icon_picture(atlas, b, ts)(u, v) == dimmed(atlas(x, (ts - y) + b.tex_spec()[Side::Right.index() as int] * ts * 2), 4));
}

/// Where pixel `(x, y)` of a tile of `ts` pixels lands in the top of an
/// icon: the tile turned by 45 degrees and squashed to half its height.
pub open spec fn top_spot(ts: int, x: int, y: int) -> (int, int) {
    (ts / 2 + x / 2 - y / 2, (ts / 2 + x / 2 - y / 2) / 2 + y / 2 - ts / 4)
}

/// The top of an icon is the block's top tile, as it is: every pixel
/// `(u, v)` that a pixel of the top tile lands on (see [`top_spot`]) and no
/// pixel of the front or right tile lands on shows pixel `(x, y)` of the
/// block's top tile for one `(x, y)` landing there.
pub proof fn lemma_icon_top(atlas: spec_fn(int, int) -> [u8; 4], b: BlockType, ts: int, u: int, v: int)
    requires
        exists|x: int, y: int| 0 <= x < ts && 0 <= y < ts && #[trigger] top_spot(ts, x, y) == (u, v),
        forall|x: int, y: int| 0 <= x < ts && 0 <= y < ts ==> #[trigger] front_spot(ts, x, y) != (u, v),
        forall|x: int, y: int| 0 <= x < ts && 0 <= y < ts ==> #[trigger] right_spot(ts, x, y) != (u, v),
    ensures
        exists|x: int, y: int|
            0 <= x < ts && 0 <= y < ts && #[trigger] top_spot(ts, x, y) == (u, v) && icon_picture(atlas, b, ts)(u, v)
                == atlas(x, y + b.tex_spec()[Side::Top.index() as int] * ts * 2),
{
    let blank = |x: int, y: int| clear();
    let p0 = paint_columns(blank, atlas, 0, ts, pass_tile(b, 0), ts);
    let p1 = paint_columns(p0, atlas, 1, ts, pass_tile(b, 1), ts);
    lemma_paint_columns_at(p1, atlas, 2, ts, pass_tile(b, 2), ts, u, v);
    lemma_paint_columns_at(p0, atlas, 1, ts, pass_tile(b, 1), ts, u, v);
    lemma_paint_columns_at(blank, atlas, 0, ts, pass_tile(b, 0), ts, u, v);
    assert forall|x: int, y: int| 0 <= x < ts && 0 <= y < ts implies !#[trigger] hits(2, ts, x, y, u, v) by {
        assert(right_spot(ts, x, y) != (u, v));
    }
    assert forall|x: int, y: int| 0 <= x < ts && 0 <= y < ts implies !#[trigger] hits(1, ts, x, y, u, v) by {
        assert(front_spot(ts, x, y) != (u, v));
    }
    let (x0, y0) = choose|x: int, y: int| 0 <= x < ts && 0 <= y < ts && #[trigger] top_spot(ts, x, y) == (u, v);
    assert(hits(0, ts, x0, y0, u, v));
    let (x, y) = choose|x: int, y: int|
        0 <= x < ts && 0 <= y < ts && #[trigger] hits(0, ts, x, y, u, v) && p0(u, v) == drawn(atlas, 0, ts, pass_tile(b, 0), x, y);
    assert(top_spot(ts, x, y) == (u, v));
    assert(icon_picture(atlas, b, ts)(u, v) == atlas(x, y + b.tex_spec()[Side::Top.index() as int] * ts * 2));
}

} // verus!
