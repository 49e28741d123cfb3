//! Greedy merging of the visible faces of one slice of a chunk into larger
//! rectangles, so that a block mesh needs fewer quads.
//!
//! A plane has 32 × 32 cells, addressed by a row `a` and a column `b`; cell
//! `(a, b)` is stored at index `a * 32 + b`. A cell with a non-zero block
//! stands for a rectangle of faces that starts at it and spans `height` rows
//! and `width` columns, all of that block and light.
use vstd::prelude::*;

verus! {

/// The index of cell `(a, b)`.
pub open spec fn cell(a: int, b: int) -> int {
    a * 32 + b
}

/// The cells of a plane as sequences: widths, heights, blocks, lights.
pub type Cells = (Seq<u8>, Seq<u8>, Seq<u8>, Seq<u16>);

/// Merges cell `(a, b)` with the rectangle that starts one row further down,
/// if that one has the same block, light and width: the cell grows by its
/// height, and the other is dropped. Cells in the last two rows are not
/// merged downwards.
pub open spec fn merge_next_row(c: Cells, a: int, b: int) -> Cells {
    let i = cell(a, b);
    let j = cell(a + 1, b);
    if a < 30 && c.2[i] == c.2[j] && c.3[i] == c.3[j] && c.0[i] == c.0[j] {
        (c.0, c.1.update(i, (c.1[i] + c.1[j]) as u8), c.2.update(j, 0u8), c.3)
    } else {
        c
    }
}

/// Merges cell `(a, b)` with the rectangle that starts one column further
/// right, if that one has the same block, light and height: the cell grows
/// by its width, and the other is dropped. Cells in the last two columns are
/// not merged rightwards.
pub open spec fn merge_next_col(c: Cells, a: int, b: int) -> Cells {
    let i = cell(a, b);
    let j = cell(a, b + 1);
    if b < 30 && c.2[i] == c.2[j] && c.3[i] == c.3[j] && c.1[i] == c.1[j] {
        (c.0.update(i, (c.0[i] + c.0[j]) as u8), c.1, c.2.update(j, 0u8), c.3)
    } else {
        c
    }
}

/// The visit of cell `(a, b)`: a cell with a block merges downwards, then
/// rightwards.
pub open spec fn visit(c: Cells, a: int, b: int) -> Cells {
    if c.2[cell(a, b)] == 0 {
        c
    } else {
        merge_next_col(merge_next_row(c, a, b), a, b)
    }
}

/// The row of the `t`-th cell visited: rows are walked from the last to the
/// first within each column.
pub open spec fn visit_row(t: int) -> int {
    31 - t % 32
}

/// The column of the `t`-th cell visited: columns are walked from the last
/// to the first.
pub open spec fn visit_col(t: int) -> int {
    31 - t / 32
}

/// The cells after the first `t` visits.
pub open spec fn scan(c: Cells, t: int) -> Cells
    decreases t,
{
    if t <= 0 {
        c
    } else {
        visit(scan(c, t - 1), visit_row(t - 1), visit_col(t - 1))
    }
}

/// The cells after every cell was visited once.
pub open spec fn optimized(c: Cells) -> Cells {
    scan(c, 1024)
}

/// Whether every width and height is 0 or 1: a plane of single faces.
pub open spec fn single_faces(c: Cells) -> bool {
    &&& c.0.len() == 1024 && c.1.len() == 1024 && c.2.len() == 1024 && c.3.len() == 1024
    &&& forall|i: int| #![trigger c.0[i]] #![trigger c.1[i]] 0 <= i < 1024 ==> c.0[i] <= 1 && c.1[i] <= 1
}

/// Whether every rectangle stays inside the plane: the height of cell
/// `(a, b)` is at most `32 - a`, its width at most `32 - b`.
pub open spec fn within_plane(c: Cells) -> bool {
    &&& c.0.len() == 1024 && c.1.len() == 1024 && c.2.len() == 1024 && c.3.len() == 1024
    &&& forall|a: int, b: int|
        0 <= a < 32 && 0 <= b < 32 ==> #[trigger] c.1[cell(a, b)] <= 32 - a && c.0[cell(a, b)] <= 32 - b
}

/// When cell `(a, b)` is visited: columns from the last to the first, and
/// within each column rows from the last to the first.
pub open spec fn visit_time(a: int, b: int) -> int {
    (31 - b) * 32 + (31 - a)
}

/// What holds of the cells after `t` visits, starting from the single faces
/// `c0`: visited rectangles stay inside the plane, unvisited cells are still
/// single faces, the lights are unchanged and blocks only ever dropped.
pub open spec fn scan_bounds(c: Cells, c0: Cells, t: int) -> bool {
    &&& c.0.len() == 1024 && c.1.len() == 1024 && c.2.len() == 1024 && c.3.len() == 1024
    &&& forall|a: int, b: int|
        #![trigger c.1[cell(a, b)]]
        #![trigger c.0[cell(a, b)]]
        0 <= a < 32 && 0 <= b < 32 ==> {
            &&& visit_time(a, b) < t ==> c.1[cell(a, b)] <= 32 - a && c.0[cell(a, b)] <= 32 - b
            &&& visit_time(a, b) >= t ==> c.1[cell(a, b)] <= 1 && c.0[cell(a, b)] <= 1
        }
    &&& c.3 == c0.3
    &&& forall|i: int| 0 <= i < 1024 ==> #[trigger] c.2[i] == 0 || c.2[i] == c0.2[i]
}

/// The `t`-th visit is of the cell whose visit time is `t`.
proof fn lemma_visit_order(t: int)
    requires
        0 <= t < 1024,
    ensures
        0 <= visit_row(t) < 32,
        0 <= visit_col(t) < 32,
        visit_time(visit_row(t), visit_col(t)) == t,
{
    assert(t == (t / 32) * 32 + t % 32) by (nonlinear_arith)
        requires 0 <= t;
    assert(0 <= t / 32 < 32) by (nonlinear_arith)
        requires 0 <= t < 1024;
}

/// A visit keeps [`scan_bounds`].
proof fn lemma_visit_keeps_bounds(c: Cells, c0: Cells, t: int)
    requires
        0 <= t < 1024,
        scan_bounds(c, c0, t),
    ensures
        scan_bounds(visit(c, visit_row(t), visit_col(t)), c0, t + 1),
{
    lemma_visit_order(t);
    let a = visit_row(t);
    let b = visit_col(t);
    let c1 = merge_next_row(c, a, b);
    let c2 = merge_next_col(c1, a, b);
    assert(c.1[cell(a, b)] <= 1 && c.0[cell(a, b)] <= 1);
    if a < 30 {
        assert(visit_time(a + 1, b) < t);
        assert(c.1[cell(a + 1, b)] <= 32 - (a + 1));
    }
    if b < 30 {
        assert(visit_time(a, b + 1) < t);
        assert(c.0[cell(a, b + 1)] <= 32 - (b + 1));
    }
    assert forall|p: int, q: int| 0 <= p < 32 && 0 <= q < 32 implies {
        &&& visit_time(p, q) < t + 1 ==> #[trigger] c2.1[cell(p, q)] <= 32 - p && c2.0[cell(p, q)] <= 32 - q
        &&& visit_time(p, q) >= t + 1 ==> c2.1[cell(p, q)] <= 1 && c2.0[cell(p, q)] <= 1
    } by {
        if p == a && q == b {
        } else {
            assert(cell(p, q) != cell(a, b));
            assert(c1.1[cell(p, q)] == c.1[cell(p, q)]);
            assert(c2.0[cell(p, q)] == c.0[cell(p, q)]);
            assert(visit_time(p, q) != t);
        }
    }
    if c.2[cell(a, b)] != 0 {
        assert forall|i: int| 0 <= i < 1024 implies #[trigger] c2.2[i] == 0 || c2.2[i] == c0.2[i] by {
            assert(c.2[i] == 0 || c.2[i] == c0.2[i]);
        }
    }
}

/// The bounds hold after every number of visits.
proof fn lemma_scan_bounds(c0: Cells, t: int)
    requires
        single_faces(c0),
        0 <= t <= 1024,
    ensures
        scan_bounds(scan(c0, t), c0, t),
    decreases t,
{
    if t == 0 {
        assert forall|a: int, b: int| 0 <= a < 32 && 0 <= b < 32 implies
            #[trigger] c0.1[cell(a, b)] <= 1 && c0.0[cell(a, b)] <= 1 by {
            assert(0 <= cell(a, b) < 1024);
        }
    } else {
        lemma_scan_bounds(c0, t - 1);
        lemma_visit_keeps_bounds(scan(c0, t - 1), c0, t - 1);
    }
}

/// A plane without blocks is left as it is.
pub proof fn lemma_optimized_empty(c: Cells)
    requires
        c.2.len() == 1024,
        forall|i: int| 0 <= i < 1024 ==> #[trigger] c.2[i] == 0,
    ensures
        optimized(c) == c,
{
    lemma_scan_empty(c, 1024);
}

proof fn lemma_scan_empty(c: Cells, t: int)
    requires
        0 <= t <= 1024,
        c.2.len() == 1024,
        forall|i: int| 0 <= i < 1024 ==> #[trigger] c.2[i] == 0,
    ensures
        scan(c, t) == c,
    decreases t,
{
    if t > 0 {
        lemma_scan_empty(c, t - 1);
        lemma_visit_order(t - 1);
        assert(0 <= cell(visit_row(t - 1), visit_col(t - 1)) < 1024);
    }
}

/// Whether `(a, b)` is a cell of the plane.
pub open spec fn in_plane(a: int, b: int) -> bool {
    0 <= a < 32 && 0 <= b < 32
}

/// Whether the rectangle that starts at cell `(a, b)` covers cell `(p, q)`.
pub open spec fn covers(c: Cells, a: int, b: int, p: int, q: int) -> bool {
    &&& c.2[cell(a, b)] != 0
    &&& a <= p < a + c.1[cell(a, b)]
    &&& b <= q < b + c.0[cell(a, b)]
}

/// Whether every cell with a block is one face: width and height 1.
pub open spec fn unit_faces(c: Cells) -> bool {
    &&& single_faces(c)
    &&& forall|a: int, b: int|
        in_plane(a, b) && #[trigger] c.2[cell(a, b)] != 0 ==> c.0[cell(a, b)] == 1 && c.1[cell(a, b)] == 1
}

/// Whether the rectangles of `c` tile the faces of `c0`: each rectangle
/// lies in the plane and covers only faces of `c0` with its block and
/// light, and each face of `c0` is covered by exactly one rectangle.
#[verifier::opaque]
pub open spec fn tiles(c: Cells, c0: Cells) -> bool {
    &&& forall|a: int, b: int, p: int, q: int|
        in_plane(a, b) && #[trigger] covers(c, a, b, p, q) ==> {
            &&& in_plane(p, q)
            &&& c0.2[cell(p, q)] == c.2[cell(a, b)]
            &&& c0.3[cell(p, q)] == c.3[cell(a, b)]
        }
    &&& forall|p: int, q: int|
        in_plane(p, q) && #[trigger] c0.2[cell(p, q)] != 0 ==> exists|a: int, b: int|
            in_plane(a, b) && #[trigger] covers(c, a, b, p, q)
    &&& forall|a1: int, b1: int, a2: int, b2: int, p: int, q: int|
        in_plane(a1, b1) && in_plane(a2, b2) && #[trigger] covers(c, a1, b1, p, q) && #[trigger] covers(
            c,
            a2,
            b2,
            p,
            q,
        ) ==> a1 == a2 && b1 == b2
}

/// Whether every rectangle of `c` has at least one row and one column.
pub open spec fn nonempty_rects(c: Cells) -> bool {
    forall|a: int, b: int|
        in_plane(a, b) && #[trigger] c.2[cell(a, b)] != 0 ==> c.0[cell(a, b)] >= 1 && c.1[cell(a, b)] >= 1
}

/// The cells after the rectangle at `(x, y)` took in the one at `(x2, y2)`
/// and became `nw` wide and `nh` high.
pub open spec fn absorbed(c: Cells, x: int, y: int, x2: int, y2: int, nw: int, nh: int) -> Cells {
    let i = cell(x, y);
    (c.0.update(i, nw as u8), c.1.update(i, nh as u8), c.2.update(cell(x2, y2), 0u8), c.3)
}

/// Cells of the plane have distinct indices, all below 1024.
proof fn lemma_cell_index(a: int, b: int, a2: int, b2: int)
    requires
        in_plane(a, b),
        in_plane(a2, b2),
    ensures
        0 <= cell(a, b) < 1024,
        cell(a, b) == cell(a2, b2) ==> a == a2 && b == b2,
{
}

/// When one rectangle takes in another with the same block and light, and
/// the grown rectangle covers exactly what the two covered, the tiling is
/// kept.
proof fn lemma_absorb_tiles(c: Cells, c0: Cells, x: int, y: int, x2: int, y2: int, nw: int, nh: int)
    requires
        tiles(c, c0),
        nonempty_rects(c),
        c.0.len() == 1024 && c.1.len() == 1024 && c.2.len() == 1024 && c.3.len() == 1024,
        in_plane(x, y),
        in_plane(x2, y2),
        (x, y) != (x2, y2),
        c.2[cell(x, y)] != 0,
        c.2[cell(x, y)] == c.2[cell(x2, y2)],
        c.3[cell(x, y)] == c.3[cell(x2, y2)],
        1 <= nw <= 255,
        1 <= nh <= 255,
        forall|p: int, q: int|
            (x <= p < x + nh && y <= q < y + nw) <==> (#[trigger] covers(c, x, y, p, q) || covers(c, x2, y2, p, q)),
    ensures
        tiles(absorbed(c, x, y, x2, y2, nw, nh), c0),
        nonempty_rects(absorbed(c, x, y, x2, y2, nw, nh)),
{
    reveal(tiles);
    let n = absorbed(c, x, y, x2, y2, nw, nh);
    lemma_cell_index(x, y, x2, y2);
    assert forall|a: int, b: int, p: int, q: int| in_plane(a, b) implies #[trigger] covers(n, a, b, p, q) == if a == x
        && b == y {
        covers(c, x, y, p, q) || covers(c, x2, y2, p, q)
    } else if a == x2 && b == y2 {
        false
    } else {
        covers(c, a, b, p, q)
    } by {
        lemma_cell_index(a, b, x, y);
        lemma_cell_index(a, b, x2, y2);
        if a == x && b == y {
            assert(covers(c, x, y, p, q) || covers(c, x2, y2, p, q) <==> (x <= p < x + nh && y <= q < y + nw));
        }
    }
    assert forall|a: int, b: int, p: int, q: int| in_plane(a, b) && #[trigger] covers(n, a, b, p, q) implies {
        &&& in_plane(p, q)
        &&& c0.2[cell(p, q)] == n.2[cell(a, b)]
        &&& c0.3[cell(p, q)] == n.3[cell(a, b)]
    } by {
        lemma_cell_index(a, b, x, y);
        lemma_cell_index(a, b, x2, y2);
        if a == x && b == y {
            if covers(c, x, y, p, q) {
            } else {
                assert(covers(c, x2, y2, p, q));
            }
        } else {
            assert(covers(c, a, b, p, q));
        }
    }
    assert forall|p: int, q: int| in_plane(p, q) && #[trigger] c0.2[cell(p, q)] != 0 implies exists|a: int, b: int|
        in_plane(a, b) && #[trigger] covers(n, a, b, p, q) by {
        let (a, b) = choose|a: int, b: int| in_plane(a, b) && #[trigger] covers(c, a, b, p, q);
        lemma_cell_index(a, b, x, y);
        lemma_cell_index(a, b, x2, y2);
        if (a == x && b == y) || (a == x2 && b == y2) {
            assert(covers(n, x, y, p, q));
        } else {
            assert(covers(n, a, b, p, q));
        }
    }
    assert forall|a1: int, b1: int, a2: int, b2: int, p: int, q: int|
        in_plane(a1, b1) && in_plane(a2, b2) && #[trigger] covers(n, a1, b1, p, q) && #[trigger] covers(
            n,
            a2,
            b2,
            p,
            q,
        ) implies a1 == a2 && b1 == b2 by {
        lemma_cell_index(a1, b1, x, y);
        lemma_cell_index(a1, b1, x2, y2);
        lemma_cell_index(a2, b2, x, y);
        lemma_cell_index(a2, b2, x2, y2);
        if a1 == x && b1 == y && !(a2 == x && b2 == y) {
            assert(covers(c, a2, b2, p, q));
            if covers(c, x, y, p, q) {
            } else {
                assert(covers(c, x2, y2, p, q));
            }
        } else if a2 == x && b2 == y && !(a1 == x && b1 == y) {
            assert(covers(c, a1, b1, p, q));
            if covers(c, x, y, p, q) {
            } else {
                assert(covers(c, x2, y2, p, q));
            }
        } else if !(a1 == x && b1 == y) && !(a2 == x && b2 == y) {
            assert(covers(c, a1, b1, p, q));
            assert(covers(c, a2, b2, p, q));
        }
    }
    assert forall|a: int, b: int| in_plane(a, b) && #[trigger] n.2[cell(a, b)] != 0 implies n.0[cell(a, b)] >= 1
        && n.1[cell(a, b)] >= 1 by {
        lemma_cell_index(a, b, x, y);
        lemma_cell_index(a, b, x2, y2);
    }
}

/// Merging a single face with the rectangle below it keeps the tiling.
proof fn lemma_merge_row_tiles(c: Cells, c0: Cells, a: int, b: int)
    requires
        tiles(c, c0),
        nonempty_rects(c),
        c.0.len() == 1024 && c.1.len() == 1024 && c.2.len() == 1024 && c.3.len() == 1024,
        in_plane(a, b),
        c.2[cell(a, b)] != 0,
        c.0[cell(a, b)] == 1,
        c.1[cell(a, b)] == 1,
        a < 30 ==> c.1[cell(a + 1, b)] <= 31 - a,
    ensures
        tiles(merge_next_row(c, a, b), c0),
        nonempty_rects(merge_next_row(c, a, b)),
        merge_next_row(c, a, b).0 == c.0,
        merge_next_row(c, a, b).1.len() == 1024,
        merge_next_row(c, a, b).2.len() == 1024,
        merge_next_row(c, a, b).3 == c.3,
        merge_next_row(c, a, b).2[cell(a, b)] == c.2[cell(a, b)],
        merge_next_row(c, a, b).1[cell(a, b)] <= 32 - a,
        forall|k: int| 0 <= k < 1024 && k != cell(a, b) ==> #[trigger] merge_next_row(c, a, b).1[k] == c.1[k],
{
    reveal(tiles);
    let i = cell(a, b);
    lemma_cell_index(a, b, a, b);
    let c1 = merge_next_row(c, a, b);
    if a < 30 && c.2[i] == c.2[cell(a + 1, b)] && c.3[i] == c.3[cell(a + 1, b)] && c.0[i] == c.0[cell(a + 1, b)] {
        let j = cell(a + 1, b);
        lemma_cell_index(a + 1, b, a, b);
        assert(c.1[cell(a + 1, b)] >= 1);
        let nh = 1 + c.1[j];
        assert forall|p: int, q: int|
            (a <= p < a + nh && b <= q < b + 1) <==> (#[trigger] covers(c, a, b, p, q) || covers(c, a + 1, b, p, q)) by {
        }
        lemma_absorb_tiles(c, c0, a, b, a + 1, b, 1, nh);
        assert(c1.0 =~= c.0.update(i, 1u8));
        assert(c1 == absorbed(c, a, b, a + 1, b, 1, nh));
    }
}

/// Merging a rectangle one column wide with the rectangle right of it, of
/// the same height, keeps the tiling.
proof fn lemma_merge_col_tiles(c: Cells, c0: Cells, a: int, b: int)
    requires
        tiles(c, c0),
        nonempty_rects(c),
        c.0.len() == 1024 && c.1.len() == 1024 && c.2.len() == 1024 && c.3.len() == 1024,
        in_plane(a, b),
        c.2[cell(a, b)] != 0,
        c.0[cell(a, b)] == 1,
        c.1[cell(a, b)] <= 32 - a,
        b < 30 ==> c.0[cell(a, b + 1)] <= 31 - b,
    ensures
        tiles(merge_next_col(c, a, b), c0),
        nonempty_rects(merge_next_col(c, a, b)),
{
    reveal(tiles);
    let i = cell(a, b);
    lemma_cell_index(a, b, a, b);
    let c2 = merge_next_col(c, a, b);
    if b < 30 && c.2[i] == c.2[cell(a, b + 1)] && c.3[i] == c.3[cell(a, b + 1)] && c.1[i] == c.1[cell(a, b + 1)] {
        let k = cell(a, b + 1);
        lemma_cell_index(a, b + 1, a, b);
        assert(c.0[cell(a, b + 1)] >= 1);
        assert(c.1[cell(a, b)] >= 1);
        let nw = 1 + c.0[k];
        let h = c.1[i];
        assert forall|p: int, q: int|
            (a <= p < a + h && b <= q < b + nw) <==> (#[trigger] covers(c, a, b, p, q) || covers(c, a, b + 1, p, q)) by {
        }
        lemma_absorb_tiles(c, c0, a, b, a, b + 1, nw, h as int);
        assert(c2.1 =~= c.1.update(i, h as u8));
        assert(c2 == absorbed(c, a, b, a, b + 1, nw, h as int));
    }
}

/// A visit keeps the tiling.
proof fn lemma_visit_tiles(c: Cells, c0: Cells, t: int)
    requires
        0 <= t < 1024,
        scan_bounds(c, c0, t),
        tiles(c, c0),
        nonempty_rects(c),
    ensures
        tiles(visit(c, visit_row(t), visit_col(t)), c0),
        nonempty_rects(visit(c, visit_row(t), visit_col(t))),
{
    lemma_visit_order(t);
    let a = visit_row(t);
    let b = visit_col(t);
    let i = cell(a, b);
    lemma_cell_index(a, b, a, b);
    if c.2[i] != 0 {
        assert(c.1[cell(a, b)] <= 1 && c.0[cell(a, b)] <= 1);
        assert(c.0[i] >= 1 && c.1[i] >= 1);
        if a < 30 {
            assert(visit_time(a + 1, b) < t);
            assert(c.1[cell(a + 1, b)] <= 32 - (a + 1));
        }
        lemma_merge_row_tiles(c, c0, a, b);
        let c1 = merge_next_row(c, a, b);
        if b < 30 {
            assert(visit_time(a, b + 1) < t);
            assert(c.0[cell(a, b + 1)] <= 32 - (b + 1));
        }
        lemma_merge_col_tiles(c1, c0, a, b);
    }
}

/// The faces of a plane of single faces tile it.
proof fn lemma_unit_faces_tile(c0: Cells)
    requires
        unit_faces(c0),
    ensures
        tiles(c0, c0),
        nonempty_rects(c0),
{
    reveal(tiles);
    assert forall|a: int, b: int, p: int, q: int| in_plane(a, b) && #[trigger] covers(c0, a, b, p, q) implies {
        &&& in_plane(p, q)
        &&& c0.2[cell(p, q)] == c0.2[cell(a, b)]
        &&& c0.3[cell(p, q)] == c0.3[cell(a, b)]
    } by {
        assert(c0.0[cell(a, b)] == 1 && c0.1[cell(a, b)] == 1);
    }
    assert forall|p: int, q: int| in_plane(p, q) && #[trigger] c0.2[cell(p, q)] != 0 implies exists|a: int, b: int|
        in_plane(a, b) && #[trigger] covers(c0, a, b, p, q) by {
        assert(c0.0[cell(p, q)] == 1 && c0.1[cell(p, q)] == 1);
        assert(covers(c0, p, q, p, q));
    }
    assert forall|a1: int, b1: int, a2: int, b2: int, p: int, q: int|
        in_plane(a1, b1) && in_plane(a2, b2) && #[trigger] covers(c0, a1, b1, p, q) && #[trigger] covers(
            c0,
            a2,
            b2,
            p,
            q,
        ) implies a1 == a2 && b1 == b2 by {
        assert(c0.0[cell(a1, b1)] == 1 && c0.1[cell(a1, b1)] == 1);
        assert(c0.0[cell(a2, b2)] == 1 && c0.1[cell(a2, b2)] == 1);
    }
}

/// The tiling holds after every number of visits.
proof fn lemma_scan_tiles(c0: Cells, t: int)
    requires
        unit_faces(c0),
        0 <= t <= 1024,
    ensures
        tiles(scan(c0, t), c0),
        nonempty_rects(scan(c0, t)),
    decreases t,
{
    if t == 0 {
        lemma_unit_faces_tile(c0);
    } else {
        lemma_scan_tiles(c0, t - 1);
        lemma_scan_bounds(c0, t - 1);
        lemma_visit_tiles(scan(c0, t - 1), c0, t - 1);
    }
}

/// Merging loses and duplicates no face: in a plane whose faces are single,
/// the rectangles that [`PlaneEntry::optimize`] leaves cover every face
/// exactly once, and each covers only faces of its own block and light.
pub proof fn lemma_optimized_tiles(c0: Cells)
    requires
        unit_faces(c0),
    ensures
        tiles(optimized(c0), c0),
{
    lemma_scan_tiles(c0, 1024);
}

/// One slice of a chunk: per cell the extent of the rectangle of faces that
/// starts there, its block (0 for none) and its light.
#[derive(Copy, Clone, Debug)]
pub struct PlaneEntry {
    pub width: [u8; 1024],
    pub height: [u8; 1024],
    pub block: [u8; 1024],
    pub light: [u16; 1024],
}

impl PlaneEntry {
    /// The cells of this plane.
    pub open spec fn cells(&self) -> Cells {
        (self.width@, self.height@, self.block@, self.light@)
    }

    /// A plane without faces.
    pub fn new() -> (r: Self)
        ensures
            r.cells().0 == Seq::new(1024, |i: int| 0u8),
            r.cells().1 == Seq::new(1024, |i: int| 0u8),
            r.cells().2 == Seq::new(1024, |i: int| 0u8),
            r.cells().3 == Seq::new(1024, |i: int| 0u16),
    {
        let r = Self { width: [0u8; 1024], height: [0u8; 1024], block: [0u8; 1024], light: [0u16; 1024] };
        assert(r.cells().0 =~= Seq::new(1024, |i: int| 0u8));
        assert(r.cells().1 =~= Seq::new(1024, |i: int| 0u8));
        assert(r.cells().2 =~= Seq::new(1024, |i: int| 0u8));
        assert(r.cells().3 =~= Seq::new(1024, |i: int| 0u16));
        r
    }

    /// Merges the faces of the plane into rectangles, visiting each cell
    /// once (columns from the last, rows from the last within a column).
    pub fn optimize(&mut self)
        requires
            single_faces(old(self).cells()),
        ensures
            final(self).cells() == optimized(old(self).cells()),
            within_plane(final(self).cells()),
            final(self).cells().3 == old(self).cells().3,
            unit_faces(old(self).cells()) ==> tiles(final(self).cells(), old(self).cells()),
            forall|i: int|
                0 <= i < 1024 ==> #[trigger] final(self).cells().2[i] == 0 || final(self).cells().2[i]
                    == old(self).cells().2[i],
    {
        let ghost c0 = self.cells();
        let mut y: usize = 32;
        while y > 0
            invariant
                y <= 32,
                single_faces(c0),
                self.cells() == scan(c0, (32 - y) * 32),
            decreases y,
        {
            y = y - 1;
            let mut x: usize = 32;
            while x > 0
                invariant
                    x <= 32,
                    y < 32,
                    single_faces(c0),
                    self.cells() == scan(c0, (31 - y) * 32 + (32 - x)),
                decreases x,
            {
                x = x - 1;
                let ghost t = (31 - y) * 32 + (31 - x);
                proof {
                    lemma_scan_bounds(c0, t);
                    lemma_visit_order(t);
                    assert(visit_row(t) == x && visit_col(t) == y) by (nonlinear_arith)
                        requires
                            t == (31 - y) * 32 + (31 - x),
                            x < 32,
                            y < 32,
                    {
                    }
                }
                let ghost before = self.cells();
                let i = x * 32 + y;
                if self.block[i] != 0 {
                    if x < 30 {
                        let j = (x + 1) * 32 + y;
                        proof {
                            assert(visit_time(x + 1, y as int) < t);
                            assert(visit_time(x as int, y as int) == t);
                            assert(i == cell(x as int, y as int) && j == cell(x + 1, y as int));
                            assert(before.1[cell(x as int, y as int)] <= 1);
                            assert(before.1[cell(x + 1, y as int)] <= 32 - (x + 1));
                        }
                        if self.block[i] == self.block[j] && self.light[i] == self.light[j]
                            && self.width[i] == self.width[j] {
                            self.height[i] = self.height[i] + self.height[j];
                            self.block[j] = 0;
                        }
                    }
                    let ghost mid = self.cells();
                    assert(mid == merge_next_row(before, x as int, y as int));
                    if y < 30 {
                        let k = x * 32 + y + 1;
                        proof {
                            assert(visit_time(x as int, y + 1) < t);
                            assert(visit_time(x as int, y as int) == t);
                            assert(i == cell(x as int, y as int) && k == cell(x as int, y + 1));
                            assert(mid.0[cell(x as int, y as int)] == before.0[cell(x as int, y as int)]);
                            assert(before.0[cell(x as int, y as int)] <= 1);
                            assert(before.0[cell(x as int, y + 1)] <= 32 - (y + 1));
                            assert(mid.0[cell(x as int, y + 1)] == before.0[cell(x as int, y + 1)]);
                        }
                        if self.block[i] == self.block[k] && self.light[i] == self.light[k]
                            && self.height[i] == self.height[k] {
                            self.width[i] = self.width[i] + self.width[k];
                            self.block[k] = 0;
                        }
                    }
                    assert(self.cells() == merge_next_col(mid, x as int, y as int));
                }
                assert(self.cells() == visit(before, x as int, y as int));
            }
        }
        proof {
            lemma_scan_bounds(c0, 1024);
            if unit_faces(c0) {
                lemma_optimized_tiles(c0);
            }
        }
    }
}

} // verus!
