//! Spreading light along a line of cells: every cell ends up with the
//! brightest light that reaches it, light losing one level per cell.
use vstd::prelude::*;

verus! {

/// The light at `i` after a pass from index 0 upward: the cell's own light or
/// the light of the cell below it in the pass, one level weaker.
pub open spec fn fwd(s: Seq<int>, i: int) -> int
    decreases i,
{
    if i <= 0 {
        s[0]
    } else {
        vstd::math::max(s[i], fwd(s, i - 1) - 1)
    }
}

/// The light at `i` after a pass from the last index downward.
pub open spec fn bwd(s: Seq<int>, i: int) -> int
    decreases s.len() - i,
{
    if i >= s.len() - 1 {
        s[s.len() - 1]
    } else {
        vstd::math::max(s[i], bwd(s, i + 1) - 1)
    }
}

/// The light at `i` once light has spread both ways along `s`.
pub open spec fn spread(s: Seq<int>, i: int) -> int {
    vstd::math::max(fwd(s, i), bwd(s, i))
}

/// The light values of a line of cells.
pub open spec fn line_of(a: [u8; 32]) -> Seq<int> {
    Seq::new(32, |k: int| a[k] as int)
}

/// Whether no value of `s` is negative.
pub open spec fn nonneg(s: Seq<int>) -> bool {
    forall|k: int| 0 <= k < s.len() ==> #[trigger] s[k] >= 0
}

/// Whether every value of `s` lies in `0..=m`.
pub open spec fn bounded(s: Seq<int>, m: int) -> bool {
    forall|k: int| 0 <= k < s.len() ==> 0 <= #[trigger] s[k] <= m
}

proof fn lemma_fwd_bounds(s: Seq<int>, i: int, m: int)
    requires
        0 <= i < s.len(),
        bounded(s, m),
    ensures
        s[i] <= fwd(s, i) <= m,
    decreases i,
{
    if i > 0 {
        lemma_fwd_bounds(s, i - 1, m);
    }
}

proof fn lemma_bwd_bounds(s: Seq<int>, i: int, m: int)
    requires
        0 <= i < s.len(),
        bounded(s, m),
    ensures
        s[i] <= bwd(s, i) <= m,
    decreases s.len() - i,
{
    if i < s.len() - 1 {
        lemma_bwd_bounds(s, i + 1, m);
    }
}

/// Spreading keeps every cell at least as bright as it was, and no brighter
/// than the brightest cell of the line.
pub proof fn lemma_spread_bounds(s: Seq<int>, i: int, m: int)
    requires
        0 <= i < s.len(),
        bounded(s, m),
    ensures
        s[i] <= spread(s, i) <= m,
{
    lemma_fwd_bounds(s, i, m);
    lemma_bwd_bounds(s, i, m);
}

/// Neighbouring cells differ by at most one level after spreading.
pub proof fn lemma_spread_step(s: Seq<int>, i: int, m: int)
    requires
        0 <= i,
        i + 1 < s.len(),
        bounded(s, m),
    ensures
        spread(s, i + 1) >= spread(s, i) - 1,
        spread(s, i) >= spread(s, i + 1) - 1,
{
    lemma_spread_bounds(s, i, m);
    lemma_spread_bounds(s, i + 1, m);
    lemma_fwd_bounds(s, i, m);
    lemma_fwd_bounds(s, i + 1, m);
    lemma_bwd_bounds(s, i, m);
    lemma_bwd_bounds(s, i + 1, m);
}

/// The light that cell `k` of `s` gives cell `i`: its own light, one level
/// weaker for each cell between them.
pub open spec fn reach(s: Seq<int>, k: int, i: int) -> int {
    s[k] - (if i >= k { i - k } else { k - i })
}

/// The pass upward gives each cell the brightest light that reaches it from
/// the cells at or below it.
proof fn lemma_fwd_max(s: Seq<int>, i: int)
    requires
        0 <= i < s.len(),
    ensures
        forall|k: int| 0 <= k <= i ==> fwd(s, i) >= #[trigger] reach(s, k, i),
        exists|k: int| 0 <= k <= i && fwd(s, i) == #[trigger] reach(s, k, i),
    decreases i,
{
    if i == 0 {
        assert(fwd(s, 0) == reach(s, 0, 0));
    } else {
        lemma_fwd_max(s, i - 1);
        assert forall|k: int| 0 <= k <= i implies fwd(s, i) >= #[trigger] reach(s, k, i) by {
            if k < i {
                assert(fwd(s, i - 1) >= reach(s, k, i - 1));
            }
        }
        if s[i] >= fwd(s, i - 1) - 1 {
            assert(fwd(s, i) == reach(s, i, i));
        } else {
            let k = choose|k: int| 0 <= k <= i - 1 && fwd(s, i - 1) == #[trigger] reach(s, k, i - 1);
            assert(fwd(s, i) == reach(s, k, i));
        }
    }
}

/// The pass downward gives each cell the brightest light that reaches it
/// from the cells at or above it.
proof fn lemma_bwd_max(s: Seq<int>, i: int)
    requires
        0 <= i < s.len(),
    ensures
        forall|k: int| i <= k < s.len() ==> bwd(s, i) >= #[trigger] reach(s, k, i),
        exists|k: int| i <= k < s.len() && bwd(s, i) == #[trigger] reach(s, k, i),
    decreases s.len() - i,
{
    if i == s.len() - 1 {
        assert(bwd(s, i) == reach(s, i, i));
    } else {
        lemma_bwd_max(s, i + 1);
        assert forall|k: int| i <= k < s.len() implies bwd(s, i) >= #[trigger] reach(s, k, i) by {
            if k > i {
                assert(bwd(s, i + 1) >= reach(s, k, i + 1));
            }
        }
        if s[i] >= bwd(s, i + 1) - 1 {
            assert(bwd(s, i) == reach(s, i, i));
        } else {
            let k = choose|k: int| i + 1 <= k < s.len() && bwd(s, i + 1) == #[trigger] reach(s, k, i + 1);
            assert(bwd(s, i) == reach(s, k, i));
        }
    }
}

/// After spreading, each cell holds the brightest light that reaches it
/// from any cell of the line: the largest of `s[k] - |i - k|` over all `k`.
pub proof fn lemma_spread_is_max(s: Seq<int>, i: int)
    requires
        0 <= i < s.len(),
    ensures
        forall|k: int| 0 <= k < s.len() ==> spread(s, i) >= #[trigger] reach(s, k, i),
        exists|k: int| 0 <= k < s.len() && spread(s, i) == #[trigger] reach(s, k, i),
{
    lemma_fwd_max(s, i);
    lemma_bwd_max(s, i);
    assert forall|k: int| 0 <= k < s.len() implies spread(s, i) >= #[trigger] reach(s, k, i) by {
        if k <= i {
            assert(fwd(s, i) >= reach(s, k, i));
        } else {
            assert(bwd(s, i) >= reach(s, k, i));
        }
    }
    if fwd(s, i) >= bwd(s, i) {
        let k = choose|k: int| 0 <= k <= i && fwd(s, i) == #[trigger] reach(s, k, i);
        assert(spread(s, i) == reach(s, k, i));
    } else {
        let k = choose|k: int| i <= k < s.len() && bwd(s, i) == #[trigger] reach(s, k, i);
        assert(spread(s, i) == reach(s, k, i));
    }
}

/// Spreads the light of `line` both ways, as two passes that run at once: one
/// from index 0 upward, one from index 31 downward. Each pass carries the
/// brightest light it has seen, one level weaker per cell, and raises each
/// cell it visits to that light.
pub(crate) fn spread_line(line: &mut [u8; 32])
    ensures
        forall|i: int| 0 <= i < 32 ==> #[trigger] final(line)[i] as int == spread(line_of(*old(line)), i),
{
    let ghost s = line_of(*line);
    assert(bounded(s, 255));
    let mut a: u8 = 0;
    let mut b: u8 = 0;
    let mut x: usize = 0;
    while x < 32
        invariant
            s == line_of(*old(line)),
            bounded(s, 255),
            x <= 32,
            forall|i: int| 0 <= i < 32 ==> s[i] <= #[trigger] line[i] as int <= spread(s, i),
            forall|i: int| 0 <= i < x ==> #[trigger] line[i] as int >= fwd(s, i),
            forall|i: int| 32 - x <= i < 32 ==> #[trigger] line[i] as int >= bwd(s, i),
            x > 0 ==> a as int >= fwd(s, x - 1) - 1,
            x < 32 ==> a as int <= spread(s, x as int),
            x > 0 ==> b as int >= bwd(s, 32 - x) - 1,
            x < 32 ==> b as int <= spread(s, 31 - x),
        decreases 32 - x,
    {
        proof {
            lemma_spread_bounds(s, x as int, 255);
            lemma_spread_bounds(s, 31 - x, 255);
            if x < 31 {
                lemma_spread_step(s, x as int, 255);
                lemma_spread_step(s, 30 - x, 255);
            }
        }
        if line[x] > a {
            a = line[x];
        }
        line[x] = a;
        a = if a > 0 {
            a - 1
        } else {
            0
        };

        let j = 31 - x;
        if line[j] > b {
            b = line[j];
        }
        line[j] = b;
        b = if b > 0 {
            b - 1
        } else {
            0
        };
        x = x + 1;
    }
}

} // verus!
