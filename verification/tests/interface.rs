use wolkenwelten::ui::{healthbar, inventory, log};
use wolkenwelten::{BlockItem, Character, GameLog, Health, Item, ScriptedItemList, TextMesh, Vertex2D};

fn v(x: i16, y: i16, u: i16, w: i16, c: [u8; 4]) -> (i16, i16, i16, i16, [u8; 4]) {
    (x, y, u, w, c)
}

fn flat(vs: &[Vertex2D]) -> Vec<(i16, i16, i16, i16, [u8; 4])> {
    vs.iter().map(|p| (p.pos[0], p.pos[1], p.tex[0], p.tex[1], p.color)).collect()
}

const WHITE: [u8; 4] = [255, 255, 255, 255];

#[test]
fn push_vertex_and_prepare() {
    let mut m = TextMesh::new();
    m.push_vertex(1, 2, 3, 4, [5, 6, 7, 8]);
    let out = m.prepare().unwrap();
    assert_eq!(flat(&out), vec![v(1, 2, 3, 4, [5, 6, 7, 8])]);
    let again = m.prepare().unwrap();
    assert!(again.is_empty());
}

#[test]
fn push_box_order() {
    let mut m = TextMesh::new();
    m.push_box((10, 20, 30, 40), (1, 2, 3, 4), WHITE);
    let out = m.prepare().unwrap();
    assert_eq!(
        flat(&out),
        vec![
            v(10, 60, 1, 6, WHITE),
            v(40, 20, 4, 2, WHITE),
            v(10, 20, 1, 2, WHITE),
            v(40, 20, 4, 2, WHITE),
            v(10, 60, 1, 6, WHITE),
            v(40, 60, 4, 6, WHITE),
        ]
    );
}

#[test]
fn push_heart_texture() {
    let mut m = TextMesh::new();
    m.push_heart(0, 0, 32, WHITE, 2);
    let out = m.prepare().unwrap();
    assert_eq!(out.len(), 6);
    assert_eq!(flat(&out)[0], v(0, 32, 116, 128, WHITE));
    assert_eq!(flat(&out)[5], v(32, 32, 120, 128, WHITE));
}

#[test]
fn push_glyph_texture_and_skips() {
    let mut m = TextMesh::new();
    m.push_glyph(0, 0, 2, WHITE, 'A');
    let out = m.prepare().unwrap();
    assert_eq!(out.len(), 6);
    assert_eq!(flat(&out)[0], v(0, 16, 34, 120, WHITE));
    assert_eq!(flat(&out)[5], v(16, 16, 36, 120, WHITE));

    m.push_glyph(0, 0, 1, WHITE, 'A');
    let out = m.prepare().unwrap();
    assert_eq!(flat(&out)[2], v(0, 0, 33, 107, WHITE));

    m.push_glyph(0, 0, 2, WHITE, ' ');
    m.push_glyph(0, 0, 2, WHITE, '\0');
    m.push_glyph(-17, 0, 2, WHITE, 'A');
    m.push_glyph(0, -17, 2, WHITE, 'A');
    assert!(m.prepare().unwrap().is_empty());
}

#[test]
fn push_string_places_glyphs() {
    let mut m = TextMesh::new();
    m.push_string(0, 0, 1, WHITE, "AB");
    let out = m.prepare().unwrap();
    assert_eq!(out.len(), 12);
    assert_eq!(flat(&out)[2], v(0, 0, 33, 107, WHITE));
    assert_eq!(flat(&out)[8], v(8, 0, 34, 107, WHITE));
}

#[test]
fn healthbar_full_health() {
    let mut m = TextMesh::new();
    let h = Health::new(12);
    healthbar::prepare(&mut m, &h, 0, 96, 16, false);
    let out = flat(&m.prepare().unwrap());
    assert_eq!(out.len(), 18);
    assert_eq!(out[2], v(96, 16, 124, 124, WHITE));
    assert_eq!(out[8], v(136, 16, 124, 124, WHITE));
    assert_eq!(out[14], v(176, 16, 124, 124, WHITE));
}

#[test]
fn healthbar_heart_beat() {
    let mut m = TextMesh::new();
    let h = Health::new(12);
    healthbar::prepare(&mut m, &h, 0, 96, 16, true);
    let out = flat(&m.prepare().unwrap());
    assert_eq!(out.len(), 24);
    assert_eq!(out[2], v(175, 15, 124, 124, [255, 255, 255, 254]));
    assert_eq!(out[5], v(209, 49, 128, 128, [255, 255, 255, 254]));
}

#[test]
fn healthbar_damaged() {
    let mut m = TextMesh::new();
    let mut h = Health::new(12);
    h.damage(5);
    healthbar::prepare(&mut m, &h, 0, 0, 0, false);
    let out = flat(&m.prepare().unwrap());
    assert_eq!(out.len(), 18);
    assert_eq!(out[2], v(0, 0, 124, 124, WHITE));
    assert_eq!(out[8], v(40, 0, 120, 124, WHITE));
    assert_eq!(out[14], v(80, 0, 108, 124, WHITE));
}

#[test]
fn inventory_bar_slots() {
    let mut m = TextMesh::new();
    let mut c = Character::new();
    c.rebirth();
    c.inventory_mut()[0] = Item::Block(BlockItem::new(33, 12));
    let items = ScriptedItemList::new();
    inventory::prepare(&mut m, &items, (800, 600), &c);
    let out = flat(&m.prepare().unwrap());
    // ten slots of two frames each, plus the first slot's icon and "12x"
    assert_eq!(out.len(), 10 * 12 + 6 + 3 * 6);
    // the first slot starts at 800 - 10 * 64, 64 above the bottom
    assert_eq!(out[2], v(160, 536, 76, 124, [0x3F, 0x3F, 0x3F, 0x1F]));
    // its frame is the active one
    assert_eq!(out[8], v(160, 536, 84, 124, WHITE));
    // the icon of block 33: column 1, row 1 of the block textures
    assert_eq!(out[14], v(164, 540, 4, 4, WHITE));
    // the label's first glyph '1' at (164, 588)
    assert_eq!(out[20], v(164, 588, 33, 108, WHITE));
    // the second slot is not active
    assert_eq!(out[36 + 6 + 2], v(224, 536, 80, 124, WHITE));
}

#[test]
fn inventory_bar_scripted_item() {
    let mut m = TextMesh::new();
    let mut c = Character::new();
    c.rebirth();
    c.inventory_mut()[1] = Item::Scripted(7);
    let mut items = ScriptedItemList::new();
    items.set_icon(7, 33);
    items.set_amount(7, 5);
    inventory::prepare(&mut m, &items, (640, 64), &c);
    let out = flat(&m.prepare().unwrap());
    assert_eq!(out.len(), 10 * 12 + 6 + 2 * 6);
    // second slot at x = 0 + 64; its icon from the second half of the texture
    assert_eq!(out[12 + 12 + 2], v(68, 4, 4, 36, WHITE));
}

#[test]
fn log_lines_stack_upwards() {
    let mut m = TextMesh::new();
    let mut l = GameLog::new();
    l.push("A".to_string());
    l.push("B".to_string());
    log::prepare_with_alphas(&mut m, &l, 100, &vec![10, 20]);
    let out = flat(&m.prepare().unwrap());
    assert_eq!(out.len(), 12);
    assert_eq!(out[2], v(16, 68, 34, 118, [255, 255, 255, 10]));
    assert_eq!(out[8], v(16, 48, 36, 118, [255, 255, 255, 20]));
}

#[test]
fn log_prepare_draws_every_line() {
    let mut m = TextMesh::new();
    let mut l = GameLog::new();
    l.push("AB".to_string());
    log::prepare(&mut m, &l, 100);
    let out = m.prepare().unwrap();
    assert_eq!(out.len(), 12);
    assert_eq!(out[2].pos, [16, 68]);
}

#[test]
fn crosshair_in_the_middle() {
    let mut m = TextMesh::new();
    wolkenwelten::ui::prepare_crosshair(&mut m, (800, 600));
    let out = flat(&m.prepare().unwrap());
    assert_eq!(out.len(), 6);
    assert_eq!(out[2], v(368, 268, 72, 124, [255, 255, 255, 127]));
}

#[test]
fn fps_at_the_top_right() {
    let mut m = TextMesh::new();
    wolkenwelten::ui::prepare_fps(&mut m, 800, 60);
    let out = flat(&m.prepare().unwrap());
    assert_eq!(out.len(), 12);
    assert_eq!(out[2], v(752, 8, 44, 120, WHITE));
    assert_eq!(out[8], v(768, 8, 32, 120, WHITE));
}

#[test]
fn death_overlay_only_when_dead() {
    let mut m = TextMesh::new();
    let mut c = Character::new();
    wolkenwelten::ui::prepare_death_overlay(&mut m, &c, (800, 600));
    assert!(m.prepare().unwrap().is_empty());
    c.set_max_health(0);
    wolkenwelten::ui::prepare_death_overlay(&mut m, &c, (800, 600));
    let out = flat(&m.prepare().unwrap());
    assert_eq!(out.len(), 330);
    assert_eq!(out[2], v(272, 284, 50, 116, WHITE));
}

#[test]
fn log_messages_fade_in() {
    assert_eq!(log::alpha_of(0), 0);
    assert_eq!(log::alpha_of(100), 100);
    assert_eq!(log::alpha_of(255), 255);
    assert_eq!(log::alpha_of(100_000), 255);
}

#[test]
fn decimal_text_of_numbers() {
    assert_eq!(inventory::decimal_string(0), "0");
    assert_eq!(inventory::decimal_string(7), "7");
    assert_eq!(inventory::decimal_string(10), "10");
    assert_eq!(inventory::decimal_string(120), "120");
    assert_eq!(inventory::decimal_string(u64::MAX), "18446744073709551615");
}
