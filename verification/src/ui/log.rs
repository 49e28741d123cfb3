//! The game log: its messages stacked upwards from the bottom left of the
//! window, each fading in over its first quarter second.
use vstd::prelude::*;
use crate::game_log::GameLog;
use crate::text::{in_i32, string_fits, string_vertices, TextMesh, Vertex2D};
use crate::time::{millis_since, Instant};

verus! {

/// The row at which message `i` of the log is drawn in a window `height`
/// high: 32 pixels above the bottom, and 20 more for each newer message
/// before it.
pub open spec fn log_row(height: u32, i: int) -> int {
    ((height - 32) as i32) as int - ((i as i32) as int) * 20
}

/// The vertices of the first `k` messages of `entries`, message `i` drawn
/// with opacity `alphas[i]`.
pub open spec fn log_vertices(entries: Seq<(String, Instant)>, height: u32, alphas: Seq<u8>, k: int) -> Seq<Vertex2D>
    decreases k,
{
    if k <= 0 {
        Seq::empty()
    } else {
        log_vertices(entries, height, alphas, k - 1) + string_vertices(
            16,
            log_row(height, k - 1) as i16,
            2,
            [255u8, 255u8, 255u8, alphas[k - 1]],
            entries[k - 1].0@,
        )
    }
}

/// Whether message `i` fits.
pub open spec fn log_line_fits(entries: Seq<(String, Instant)>, height: u32, i: int) -> bool {
    &&& in_i32(((i as i32) as int) * 20)
    &&& in_i32(log_row(height, i))
    &&& string_fits(16, log_row(height, i) as i16, 2, entries[i].0@)
    &&& entries[i].0@.len() <= usize::MAX
}

/// Whether drawing the log keeps every value in range; the window must be
/// at least 32 pixels high.
pub open spec fn log_fits(entries: Seq<(String, Instant)>, height: u32) -> bool {
    &&& height >= 32
    &&& forall|i: int| 0 <= i < entries.len() ==> #[trigger] log_line_fits(entries, height, i)
}

/// How opaque a message is drawn `elapsed` milliseconds after it was
/// pushed: fully transparent at first, opaque after 255 milliseconds.
pub open spec fn alpha_after(elapsed: int) -> u8 {
    if elapsed < 255 { elapsed as u8 } else { 255 }
}

/// The opacity of a message `elapsed` milliseconds after it was pushed.
pub fn alpha_of(elapsed: u128) -> (a: u8)
    ensures
        a == alpha_after(elapsed as int),
{
    if elapsed < 255 { elapsed as u8 } else { 255 }
}

/// How opaque a message pushed at `t` is drawn: the milliseconds since, read
/// from the clock, at most 255.
fn message_alpha(t: Instant) -> (a: u8)
    ensures
        exists|elapsed: int| elapsed >= 0 && #[trigger] alpha_after(elapsed) == a,
{
    let ms = millis_since(t);
    alpha_of(ms)
}

/// Draws the messages of `log` in a window `window_height` high, message
/// `i` with opacity `alphas[i]`.
pub fn prepare_with_alphas(mesh: &mut TextMesh, log: &GameLog, window_height: u32, alphas: &Vec<u8>)
    requires
        log_fits(log.entries_spec(), window_height),
        alphas.len() == log.entries_spec().len(),
    ensures
        final(mesh).pending() == old(mesh).pending() + log_vertices(
            log.entries_spec(),
            window_height,
            alphas@,
            log.entries_spec().len() as int,
        ),
        final(mesh).uploaded() == old(mesh).uploaded(),
{
    let x: i32 = 16;
    let y = (window_height - 32) as i32;
    let entries = log.entries();
    let ghost start = mesh.pending();
    let mut i: usize = 0;
    while i < entries.len()
        invariant
            i <= entries@.len(),
            entries@ == log.entries_spec(),
            alphas@.len() == entries@.len(),
            log_fits(entries@, window_height),
            x == 16,
            y == ((window_height - 32) as i32),
            mesh.pending() == start + log_vertices(entries@, window_height, alphas@, i as int),
            mesh.uploaded() == old(mesh).uploaded(),
        decreases entries@.len() - i,
    {
        assert(log_line_fits(entries@, window_height, i as int));
        let a = alphas[i];
        let s = &entries[i].0;
        mesh.push_string(x as i16, (y - i as i32 * 20) as i16, 2, [0xFF, 0xFF, 0xFF, a], s.as_str());
        i = i + 1;
    }
}

/// Draws the messages of `log` in a window `window_height` high, each as
/// opaque as it is old in milliseconds, up to 255; the opacities depend on
/// the clock, so only their number is stated.
pub fn prepare(mesh: &mut TextMesh, log: &GameLog, window_height: u32)
    requires
        log_fits(log.entries_spec(), window_height),
    ensures
        exists|alphas: Seq<u8>|
            alphas.len() == log.entries_spec().len() && final(mesh).pending() == old(mesh).pending()
                + log_vertices(log.entries_spec(), window_height, alphas, log.entries_spec().len() as int),
        final(mesh).uploaded() == old(mesh).uploaded(),
{
    let entries = log.entries();
    let mut alphas: Vec<u8> = Vec::new();
    let mut i: usize = 0;
    while i < entries.len()
        invariant
            i <= entries@.len(),
            alphas@.len() == i,
        decreases entries@.len() - i,
    {
        alphas.push(message_alpha(entries[i].1));
        i = i + 1;
    }
    prepare_with_alphas(mesh, log, window_height, &alphas);
}

} // verus!
