//! What the interface draws each frame, as vertices of the interface mesh.
pub mod healthbar;
pub mod inventory;
pub mod log;

use vstd::prelude::*;
use crate::character::Character;
use crate::text::{box_vertices, in_i16, string_fits, string_vertices, TextMesh};
use crate::ui::healthbar::{opaque_white, quot};
use crate::ui::inventory::{decimal, decimal_string};

verus! {

/// The line under "You died": the level and the score reached.
fn final_score_text(level: u8, score: u64) -> (r: String)
    ensures
        r@ == "You reached level "@ + decimal(level as nat) + " with a score of "@ + decimal(score as nat),
{
    let mut s = String::from_str("You reached level ");
    let level_text = decimal_string(level as u64);
    s.append(level_text.as_str());
    s.append(" with a score of ");
    let score_text = decimal_string(score);
    s.append(score_text.as_str());
    s
}

/// Where the cross hair is drawn in a window of `window`: a 32 pixel square
/// up and left of the middle.
pub open spec fn crosshair_pos(window: (u32, u32)) -> (i16, i16) {
    (
        (quot((window.0 as i16) as int, 2) - 32) as i16,
        (quot((window.1 as i16) as int, 2) - 32) as i16,
    )
}

/// Draws the cross hair in the middle of a window of `window`.
pub fn prepare_crosshair(mesh: &mut TextMesh, window: (u32, u32))
    ensures
        final(mesh).pending() == old(mesh).pending() + box_vertices(
            crosshair_pos(window).0,
            crosshair_pos(window).1,
            32,
            32,
            72,
            124,
            4,
            4,
            [0xFFu8, 0xFFu8, 0xFFu8, 0x7Fu8],
        ),
        final(mesh).uploaded() == old(mesh).uploaded(),
{
    let (window_width, window_height) = window;
    let pos = ((window_width as i16) / 2 - 32, (window_height as i16) / 2 - 32, 32, 32);
    let tex = (72, 124, 4, 4);
    mesh.push_box(pos, tex, [0xFF, 0xFF, 0xFF, 0x7F]);
}

/// Whether drawing the frame rate in a window `window_width` wide fits.
pub open spec fn fps_fits(window_width: u32, fps: u32) -> bool {
    &&& in_i16((window_width as i16) - 48)
    &&& string_fits(((window_width as i16) - 48) as i16, 8, 2, decimal(fps as nat))
    &&& decimal(fps as nat).len() <= usize::MAX
}

/// Draws the frame rate `fps` at the top right of a window `window_width`
/// wide.
pub fn prepare_fps(mesh: &mut TextMesh, window_width: u32, fps: u32)
    requires
        fps_fits(window_width, fps),
    ensures
        final(mesh).pending() == old(mesh).pending() + string_vertices(
            ((window_width as i16) - 48) as i16,
            8,
            2,
            opaque_white(),
            decimal(fps as nat),
        ),
        final(mesh).uploaded() == old(mesh).uploaded(),
{
    let fps_text = decimal_string(fps as u64);
    mesh.push_string(window_width as i16 - 48, 8, 2, [0xFF, 0xFF, 0xFF, 0xFF], fps_text.as_str());
}

/// The corner where "You died" is drawn in a window of `window`.
pub open spec fn death_pos(window: (u32, u32)) -> (int, int) {
    (quot((window.0 as i16) as int, 2) - 128, quot((window.1 as i16) as int, 2) - 16)
}

/// The score of `player`: all experience it ever gained.
pub open spec fn player_score(player: &Character) -> int {
    player.experience_spec().score()
}

/// Whether drawing the death overlay keeps every value in range.
pub open spec fn death_overlay_fits(player: &Character, window: (u32, u32)) -> bool {
    let (x, y) = death_pos(window);
    let line = "You reached level "@ + decimal(player.experience_spec().level_spec() as nat)
        + " with a score of "@ + decimal(player_score(player) as nat);
    &&& player_score(player) <= u64::MAX
    &&& in_i16(x) && in_i16(y)
    &&& string_fits(x as i16, y as i16, 4, "You died"@)
    &&& in_i16(x - 128) && in_i16(y + 48)
    &&& string_fits((x - 128) as i16, (y + 48) as i16, 2, line)
    &&& line.len() <= usize::MAX
    &&& in_i16(x - 80) && in_i16(y + 104)
    &&& string_fits((x - 80) as i16, (y + 104) as i16, 2, "Press R to try once more"@)
}

/// Draws, if `player` is dead, that it died, the level and score it
/// reached, and how to start over, in the middle of a window of `window`.
pub fn prepare_death_overlay(mesh: &mut TextMesh, player: &Character, window: (u32, u32))
    requires
        player.health_spec().hp() <= 0 ==> death_overlay_fits(player, window),
    ensures
        player.health_spec().hp() > 0 ==> final(mesh).pending() == old(mesh).pending(),
        player.health_spec().hp() <= 0 ==> {
            let (x, y) = death_pos(window);
            let line = "You reached level "@ + decimal(player.experience_spec().level_spec() as nat)
                + " with a score of "@ + decimal(player_score(player) as nat);
            final(mesh).pending() == old(mesh).pending()
                + string_vertices(x as i16, y as i16, 4, opaque_white(), "You died"@)
                + string_vertices((x - 128) as i16, (y + 48) as i16, 2, opaque_white(), line)
                + string_vertices((x - 80) as i16, (y + 104) as i16, 2, opaque_white(), "Press R to try once more"@)
        },
        final(mesh).uploaded() == old(mesh).uploaded(),
{
    if !player.is_dead() {
        return;
    }
    let (window_width, window_height) = window;
    let x = (window_width as i16) / 2 - 128;
    let y = (window_height as i16) / 2 - 16;
    let rgba: [u8; 4] = [0xFF, 0xFF, 0xFF, 0xFF];
    let text = "You died";
    proof {
        reveal_strlit("You died");
    }
    mesh.push_string(x, y, 4, rgba, text);
    let x = x - 128;
    let y = y + 48;
    let e = player.experience();
    let text = final_score_text(e.level(), e.xp_total() + e.xp());
    mesh.push_string(x, y, 2, rgba, text.as_str());
    let x = x + 48;
    let y = y + 56;
    proof {
        reveal_strlit("Press R to try once more");
    }
    mesh.push_string(x, y, 2, rgba, "Press R to try once more");
}

} // verus!
