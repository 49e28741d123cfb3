//! The health bar: a row of hearts, four quarters of health each, the last
//! one beating faster the lower the health.
use vstd::prelude::*;
use crate::health::Health;
use crate::text::{heart_fits, heart_vertices, in_i16, TextMesh, Vertex2D};

verus! {

/// Rust's `/` on integers: the quotient rounded toward zero.
pub open spec fn quot(a: int, b: int) -> int {
    if a >= 0 { a / b } else { -((-a) / b) }
}

/// Rust's `%` on integers: the remainder that goes with [`quot`].
pub open spec fn rem(a: int, b: int) -> int {
    a - quot(a, b) * b
}

/// The colour of the hearts that do not beat.
pub open spec fn opaque_white() -> [u8; 4] {
    [255u8, 255u8, 255u8, 255u8]
}

/// How far the tick counter is shifted to get the beat: the beat is faster
/// below half health, and faster still below one heart.
pub open spec fn beat_shift(hp: int, max_hp: int) -> u64 {
    if hp < quot(max_hp, 2) {
        if hp < 4 { 2 } else { 3 }
    } else {
        4
    }
}

/// The phase of the beat, from 127 down to 0.
pub open spec fn beat_phase(ticks: u64, hp: int, max_hp: int) -> int {
    127 - ((ticks >> beat_shift(hp, max_hp)) & 0x7Fu64)
}

/// How far the beating heart grows past its edge, on each side.
pub open spec fn beat_offset(phase: int) -> int {
    16 - phase / 8
}

/// The colour of the beating heart: it fades as it grows.
pub open spec fn beat_color(phase: int) -> [u8; 4] {
    [255u8, 255u8, 255u8, (phase * 2) as u8]
}

/// Where the beating heart is drawn, left of `x`-relative slot `quot(hp, 4)`
/// (one slot further left when the last heart is full).
pub open spec fn beat_x(hp: int, x: int, off: int) -> int {
    if rem(hp, 4) == 0 { x + quot(hp, 4) * 40 - off - 40 } else { x + quot(hp, 4) * 40 - off }
}

/// The fill of the beating heart.
pub open spec fn beat_fill(hp: int) -> int {
    if rem(hp, 4) == 0 { 4 } else { rem(hp, 4) }
}

/// The beating heart.
pub open spec fn beat_vertices(hp: int, max_hp: int, ticks: u64, x: i16, y: i16) -> Seq<Vertex2D> {
    let p = beat_phase(ticks, hp, max_hp);
    let off = beat_offset(p);
    heart_vertices(
        beat_x(hp, x as int, off) as i16,
        (y - off) as i16,
        (32 + off * 2) as i16,
        beat_color(p),
        beat_fill(hp) as i16,
    )
}

/// The hearts of edge 32 in slots `from` up to `to` (exclusive) of the bar at
/// `(x, y)`, 40 pixels apart, each with `fill` quarters filled.
pub open spec fn hearts(x: i16, y: i16, from: int, to: int, fill: i16) -> Seq<Vertex2D>
    decreases to - from,
{
    if to <= from {
        Seq::empty()
    } else {
        hearts(x, y, from, to - 1, fill) + heart_vertices((x + (to - 1) * 40) as i16, y, 32, opaque_white(), fill)
    }
}

/// The whole bar: the beating heart (when `heart_beat` is on and the
/// character lives), the full hearts, the partly filled one (unless health
/// is full), and the empty ones up to the maximum.
pub open spec fn healthbar_vertices(hp: int, max_hp: int, ticks: u64, x: i16, y: i16, heart_beat: bool) -> Seq<Vertex2D> {
    let q = quot(hp, 4);
    (if heart_beat && hp > 0 { beat_vertices(hp, max_hp, ticks, x, y) } else { Seq::empty() })
        + hearts(x, y, 0, q, 4)
        + (if hp < max_hp {
            heart_vertices((x + q * 40) as i16, y, 32, opaque_white(), rem(hp, 4) as i16)
        } else {
            Seq::empty()
        })
        + hearts(x, y, q + 1, quot(max_hp, 4), 0)
}

/// How many quarters of heart `k` of the bar are filled at `hp` hit points:
/// the hit points past the first `4 * k`, at most 4 and at least 0.
pub open spec fn heart_fill(hp: int, k: int) -> int {
    if hp - 4 * k >= 4 {
        4
    } else if hp - 4 * k <= 0 {
        0
    } else {
        hp - 4 * k
    }
}

/// The hearts of slots `from` up to `to`: six vertices each, slot `k` at
/// `x + 40 * k` with fill `fill`.
proof fn lemma_hearts(x: i16, y: i16, from: int, to: int, fill: i16)
    requires
        from <= to,
    ensures
        hearts(x, y, from, to, fill).len() == 6 * (to - from),
        forall|k: int|
            from <= k < to ==> #[trigger] hearts(x, y, from, to, fill).subrange(6 * (k - from), 6 * (k - from) + 6)
                == heart_vertices((x + k * 40) as i16, y, 32, opaque_white(), fill),
    decreases to - from,
{
    if to > from {
        lemma_hearts(x, y, from, to - 1, fill);
        let a = hearts(x, y, from, to - 1, fill);
        let h = heart_vertices((x + (to - 1) * 40) as i16, y, 32, opaque_white(), fill);
        assert(hearts(x, y, from, to, fill) == a + h);
        assert forall|k: int| from <= k < to implies #[trigger] hearts(x, y, from, to, fill).subrange(
            6 * (k - from),
            6 * (k - from) + 6,
        ) == heart_vertices((x + k * 40) as i16, y, 32, opaque_white(), fill) by {
            if k < to - 1 {
                assert((a + h).subrange(6 * (k - from), 6 * (k - from) + 6) =~= a.subrange(
                    6 * (k - from),
                    6 * (k - from) + 6,
                ));
            } else {
                assert((a + h).subrange(6 * (k - from), 6 * (k - from) + 6) =~= h);
            }
        }
    }
}

/// The bar of a character with `hp` of `max_hp` hit points (`max_hp` a
/// multiple of 4, `hp` between 0 and `max_hp`), the beat aside, holds one
/// heart per 4 hit points of the maximum: six vertices each, heart `k` at
/// `x + 40 * k` with `heart_fill(hp, k)` quarters filled.
pub proof fn lemma_bar_hearts(hp: int, max_hp: int, ticks: u64, x: i16, y: i16)
    requires
        0 <= hp <= max_hp,
        max_hp % 4 == 0,
    ensures
        healthbar_vertices(hp, max_hp, ticks, x, y, false).len() == 6 * (max_hp / 4),
        forall|k: int|
            0 <= k < max_hp / 4 ==> #[trigger] healthbar_vertices(hp, max_hp, ticks, x, y, false).subrange(6 * k, 6 * k + 6)
                == heart_vertices((x + k * 40) as i16, y, 32, opaque_white(), heart_fill(hp, k) as i16),
{
    let q = hp / 4;
    let n = max_hp / 4;
    assert(quot(hp, 4) == q);
    assert(quot(max_hp, 4) == n);
    assert(rem(hp, 4) == hp % 4);
    let a = hearts(x, y, 0, q, 4);
    let p = if hp < max_hp {
        heart_vertices((x + q * 40) as i16, y, 32, opaque_white(), rem(hp, 4) as i16)
    } else {
        Seq::empty()
    };
    lemma_hearts(x, y, 0, q, 4);
    assert(4 * q <= hp < 4 * q + 4);
    assert(max_hp == 4 * n);
    let all = healthbar_vertices(hp, max_hp, ticks, x, y, false);
    if hp < max_hp {
        assert(q < n);
        let c = hearts(x, y, q + 1, n, 0);
        lemma_hearts(x, y, q + 1, n, 0);
        assert(all =~= a + p + c);
        assert forall|k: int| 0 <= k < n implies #[trigger] all.subrange(6 * k, 6 * k + 6) == heart_vertices(
            (x + k * 40) as i16,
            y,
            32,
            opaque_white(),
            heart_fill(hp, k) as i16,
        ) by {
            if k < q {
                assert(heart_fill(hp, k) == 4);
                assert(a.subrange(6 * (k - 0), 6 * (k - 0) + 6) == heart_vertices((x + k * 40) as i16, y, 32, opaque_white(), 4));
                assert(all.subrange(6 * k, 6 * k + 6) =~= a.subrange(6 * k, 6 * k + 6));
            } else if k == q {
                assert(heart_fill(hp, k) == hp % 4);
                assert(all.subrange(6 * k, 6 * k + 6) =~= p);
            } else {
                assert(heart_fill(hp, k) == 0);
                assert(c.subrange(6 * (k - (q + 1)), 6 * (k - (q + 1)) + 6) == heart_vertices(
                    (x + k * 40) as i16,
                    y,
                    32,
                    opaque_white(),
                    0,
                ));
                assert(all.subrange(6 * k, 6 * k + 6) =~= c.subrange(6 * (k - (q + 1)), 6 * (k - (q + 1)) + 6));
            }
        }
    } else {
        assert(q == n);
        assert(hearts(x, y, q + 1, n, 0) == Seq::<Vertex2D>::empty());
        assert(all =~= a);
        assert forall|k: int| 0 <= k < n implies #[trigger] all.subrange(6 * k, 6 * k + 6) == heart_vertices(
            (x + k * 40) as i16,
            y,
            32,
            opaque_white(),
            heart_fill(hp, k) as i16,
        ) by {
            assert(heart_fill(hp, k) == 4);
            assert(a.subrange(6 * (k - 0), 6 * (k - 0) + 6) == heart_vertices((x + k * 40) as i16, y, 32, opaque_white(), 4));
            assert(all.subrange(6 * k, 6 * k + 6) =~= a.subrange(6 * k, 6 * k + 6));
        }
    }
}

/// Whether the slot `k` of the bar at `(x, y)` fits an `i16`.
pub open spec fn slot_fits(x: i16, y: i16, k: int, fill: int) -> bool {
    &&& in_i16(k * 40)
    &&& in_i16(x + k * 40)
    &&& heart_fits((x + k * 40) as i16, y, 32, fill as i16)
}

/// Whether drawing the bar keeps every value in `i16`.
pub open spec fn healthbar_fits(hp: int, max_hp: int, ticks: u64, x: i16, y: i16, heart_beat: bool) -> bool {
    let q = quot(hp, 4);
    &&& heart_beat && hp > 0 ==> {
        let off = beat_offset(beat_phase(ticks, hp, max_hp));
        &&& in_i16(q * 40)
        &&& in_i16(x + q * 40)
        &&& in_i16(x + q * 40 - off)
        &&& in_i16(beat_x(hp, x as int, off))
        &&& in_i16(y - off)
        &&& heart_fits(beat_x(hp, x as int, off) as i16, (y - off) as i16, (32 + off * 2) as i16, beat_fill(hp) as i16)
    }
    &&& forall|k: int| 0 <= k < q ==> #[trigger] slot_fits(x, y, k, 4)
    &&& hp < max_hp ==> slot_fits(x, y, q, rem(hp, 4))
    &&& forall|k: int| q + 1 <= k < quot(max_hp, 4) ==> #[trigger] slot_fits(x, y, k, 0)
}

/// Draws the health bar of `health` at `(x, y)`; `ticks` drives the beat.
pub fn prepare(mesh: &mut TextMesh, health: &Health, ticks: u64, x: i16, y: i16, heart_beat: bool)
    requires
        healthbar_fits(health.hp(), health.max_hp(), ticks, x, y, heart_beat),
    ensures
        final(mesh).pending() == old(mesh).pending()
            + healthbar_vertices(health.hp(), health.max_hp(), ticks, x, y, heart_beat),
        final(mesh).uploaded() == old(mesh).uploaded(),
{
    let hp = health.health();
    let max_hp = health.max_health();
    let rem = hp % 4;

    if heart_beat && hp > 0 {
        let tick_rate: u64 = if hp < max_hp / 2 {
            if hp < 4 { 2 } else { 3 }
        } else {
            4
        };
        assert(((ticks >> tick_rate) & 0x7Fu64) <= 127) by (bit_vector);
        let ticks = 127 - ((ticks >> tick_rate) & 0x7F);
        assert(ticks <= 127 ==> (ticks << 1u64) == ticks * 2) by (bit_vector);
        let rgba: [u8; 4] = [255, 255, 255, (ticks << 1u64) as u8];
        assert(ticks <= 127 ==> (ticks as i16) >> 3i16 == ticks / 8) by (bit_vector);
        let hb_off = 16 - (ticks as i16 >> 3);
        if rem == 0 {
            mesh.push_heart(x + hp / 4 * 40 - hb_off - 40, y - hb_off, 32 + hb_off * 2, rgba, 4);
        } else {
            mesh.push_heart(x + hp / 4 * 40 - hb_off, y - hb_off, 32 + hb_off * 2, rgba, rem);
        }
    }
    let ghost after_beat = mesh.pending();

    let full: [u8; 4] = [255, 255, 255, 255];
    let q = hp / 4;
    let mut heart: i16 = 0;
    while heart < q
        invariant
            0 <= heart <= q || (heart == 0 && q <= 0),
            q == quot(hp as int, 4),
            forall|k: int| 0 <= k < q ==> #[trigger] slot_fits(x, y, k, 4),
            full == opaque_white(),
            mesh.pending() == after_beat + hearts(x, y, 0, heart as int, 4),
            mesh.uploaded() == old(mesh).uploaded(),
        decreases q - heart,
    {
        assert(slot_fits(x, y, heart as int, 4));
        mesh.push_heart(x + heart * 40, y, 32, full, 4);
        heart = heart + 1;
    }
    let ghost after_full = mesh.pending();
    assert(after_full == after_beat + hearts(x, y, 0, q as int, 4));

    if hp < max_hp {
        mesh.push_heart(x + hp / 4 * 40, y, 32, full, rem);
    }
    let ghost after_partial = mesh.pending();

    let rest = hp / 4 + 1;
    let last = max_hp / 4;
    let mut dot: i16 = rest;
    while dot < last
        invariant
            rest <= dot <= last || (dot == rest && last <= rest),
            rest == quot(hp as int, 4) + 1,
            last == quot(max_hp as int, 4),
            forall|k: int| rest <= k < last ==> #[trigger] slot_fits(x, y, k, 0),
            full == opaque_white(),
            mesh.pending() == after_partial + hearts(x, y, rest as int, dot as int, 0),
            mesh.uploaded() == old(mesh).uploaded(),
        decreases last - dot,
    {
        assert(slot_fits(x, y, dot as int, 0));
        mesh.push_heart(x + dot * 40, y, 32, full, 0);
        dot = dot + 1;
    }
    assert(mesh.pending() == after_partial + hearts(x, y, rest as int, last as int, 0));
}

} // verus!
