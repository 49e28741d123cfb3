//! The inventory bar: one framed slot per inventory entry along the bottom
//! right of the window, each with the item's icon and its amount.
use vstd::prelude::*;
use crate::character::Character;
use crate::item::{Item, ScriptedItem, ScriptedItemList};
use crate::text::{box_fits, box_vertices, in_i32, string_fits, string_vertices, TextMesh, Vertex2D};
use crate::ui::healthbar::{opaque_white, quot};

verus! {

/// The character of the decimal digit `d`.
pub open spec fn digit_char(d: nat) -> char {
    (48 + d) as char
}

/// The decimal digits of `n`, most significant first, without leading zeros.
pub open spec fn decimal(n: nat) -> Seq<char>
    decreases n,
{
    if n < 10 {
        seq![digit_char(n)]
    } else {
        decimal(n / 10).push(digit_char(n % 10))
    }
}

/// A number has no more decimal digits than it is large, plus one.
proof fn lemma_decimal_len(n: nat)
    ensures
        decimal(n).len() <= n + 1,
    decreases n,
{
    if n >= 10 {
        lemma_decimal_len(n / 10);
    }
}

/// The label of a stack of `amount` items: its decimal digits and an `x`.
pub open spec fn amount_label(amount: u16) -> Seq<char> {
    decimal(amount as nat).push('x')
}

/// The one-character text of the decimal digit `d`.
fn digit_str(d: u64) -> (r: &'static str)
    requires
        d < 10,
    ensures
        r@ == seq![digit_char(d as nat)],
{
    match d {
        0 => {
            proof { reveal_strlit("0"); }
            "0"
        },
        1 => {
            proof { reveal_strlit("1"); }
            "1"
        },
        2 => {
            proof { reveal_strlit("2"); }
            "2"
        },
        3 => {
            proof { reveal_strlit("3"); }
            "3"
        },
        4 => {
            proof { reveal_strlit("4"); }
            "4"
        },
        5 => {
            proof { reveal_strlit("5"); }
            "5"
        },
        6 => {
            proof { reveal_strlit("6"); }
            "6"
        },
        7 => {
            proof { reveal_strlit("7"); }
            "7"
        },
        8 => {
            proof { reveal_strlit("8"); }
            "8"
        },
        _ => {
            proof { reveal_strlit("9"); }
            "9"
        },
    }
}

/// The decimal text of `n`: its digits, most significant first, without
/// sign, padding or leading zeros.
pub fn decimal_string(n: u64) -> (r: String)
    ensures
        r@ == decimal(n as nat),
    decreases n,
{
    if n < 10 {
        String::from_str(digit_str(n))
    } else {
        let mut s = decimal_string(n / 10);
        s.append(digit_str(n % 10));
        s
    }
}

/// The text `"{amount}x"` shown under a stack of `amount` items.
fn amount_text(amount: u16) -> (r: String)
    ensures
        r@ == amount_label(amount),
{
    let mut s = decimal_string(amount as u64);
    proof { reveal_strlit("x"); }
    s.append("x");
    s
}

/// The colour of a slot's background.
pub open spec fn slot_shade() -> [u8; 4] {
    [0x3Fu8, 0x3Fu8, 0x3Fu8, 0x1Fu8]
}

/// The rectangle of the icon inside the slot at `pos` of `size`: inset by a
/// sixteenth of the width on the top left, an eighth smaller.
pub open spec fn icon_rect(pos: (i32, i32), size: (i32, i32)) -> (int, int, int, int) {
    (
        pos.0 + quot(size.0 as int, 16),
        pos.1 + quot(size.0 as int, 16),
        size.0 - quot(size.0 as int, 8),
        size.1 - quot(size.1 as int, 8),
    )
}

/// The texture square of the icon of `item`, and the amount it shows: a
/// block's texture and stack size, or the icon (from the second half of the
/// texture) and amount of the scripted item, 0 for an unknown id.
pub open spec fn item_face(items: Map<u32, ScriptedItem>, item: Item) -> Option<(int, int, u16)> {
    match item {
        Item::Block(bi) => Some((((bi.block % 32) * 4) as int, ((bi.block / 32) * 4) as int, bi.amount)),
        Item::Scripted(id) => {
            let icon: u16 = if items.contains_key(id) { items[id].icon } else { 0 };
            let amount: u16 = if items.contains_key(id) { items[id].amount } else { 0 };
            Some((((icon % 32) * 4) as int, ((icon / 32) * 4) as i16 + 32, amount))
        },
        Item::Empty => None,
    }
}

/// The vertices of one slot: its background, its frame (brighter when it
/// is the active one), then for a block or scripted item its icon and the
/// label with its amount at the bottom left.
pub open spec fn slot_vertices(
    items: Map<u32, ScriptedItem>,
    pos: (i32, i32),
    size: (i32, i32),
    active: bool,
    item: Item,
) -> Seq<Vertex2D> {
    let (x, y, w, h) = (pos.0 as i16, pos.1 as i16, size.0 as i16, size.1 as i16);
    let r = icon_rect(pos, size);
    let frame = box_vertices(x, y, w, h, 76, 124, 4, 4, slot_shade())
        + box_vertices(x, y, w, h, if active { 84 } else { 80 }, 124, 4, 4, opaque_white());
    match item_face(items, item) {
        Some((u, v, amount)) => frame
            + box_vertices(r.0 as i16, r.1 as i16, r.2 as i16, r.3 as i16, u as i16, v as i16, 4, 4, opaque_white())
            + string_vertices((pos.0 + 4) as i16, (pos.1 + size.1 - 12) as i16, 1, opaque_white(), amount_label(amount)),
        None => frame,
    }
}

/// Whether drawing that slot keeps every value in range.
pub open spec fn slot_fits(
    items: Map<u32, ScriptedItem>,
    pos: (i32, i32),
    size: (i32, i32),
    item: Item,
) -> bool {
    let (x, y, w, h) = (pos.0 as i16, pos.1 as i16, size.0 as i16, size.1 as i16);
    let r = icon_rect(pos, size);
    &&& box_fits(x, y, w, h, 76, 124, 4, 4)
    &&& box_fits(x, y, w, h, 84, 124, 4, 4)
    &&& in_i32(r.0) && in_i32(r.1) && in_i32(r.2) && in_i32(r.3)
    &&& item_face(items, item) matches Some((u, v, amount)) ==> {
        &&& box_fits(r.0 as i16, r.1 as i16, r.2 as i16, r.3 as i16, u as i16, v as i16, 4, 4)
        &&& in_i32(pos.0 + 4)
        &&& in_i32(pos.1 + size.1)
        &&& in_i32(pos.1 + size.1 - 12)
        &&& string_fits((pos.0 + 4) as i16, (pos.1 + size.1 - 12) as i16, 1, amount_label(amount))
    }
}

/// The left edge of a bar of `n` slots of 64 pixels that ends at the right
/// edge of a window `width` wide.
pub open spec fn bar_x(width: u32, n: int) -> int {
    (width as i32) as int - ((n as i32) as int) * 64
}

/// The top edge of the bar: 64 pixels above the bottom of a window
/// `height` high.
pub open spec fn bar_y(height: u32) -> int {
    ((height - 64) as i32) as int
}

/// The position of slot `i` of a bar of `n` slots.
pub open spec fn bar_slot(window: (u32, u32), n: int, i: int) -> (i32, i32) {
    ((bar_x(window.0, n) + ((i as i32) as int) * 64) as i32, bar_y(window.1) as i32)
}

/// The vertices of the first `k` slots of the bar for `inv` with slot
/// `active` marked.
pub open spec fn bar_vertices(
    items: Map<u32, ScriptedItem>,
    window: (u32, u32),
    inv: Seq<Item>,
    active: int,
    k: int,
) -> Seq<Vertex2D>
    decreases k,
{
    if k <= 0 {
        Seq::empty()
    } else {
        bar_vertices(items, window, inv, active, k - 1)
            + slot_vertices(items, bar_slot(window, inv.len() as int, k - 1), (64i32, 64i32), k - 1 == active, inv[k - 1])
    }
}

/// Whether slot `i` of the bar fits.
pub open spec fn bar_slot_fits(items: Map<u32, ScriptedItem>, window: (u32, u32), inv: Seq<Item>, i: int) -> bool {
    &&& in_i32(((i as i32) as int) * 64)
    &&& in_i32(bar_x(window.0, inv.len() as int) + ((i as i32) as int) * 64)
    &&& slot_fits(items, bar_slot(window, inv.len() as int, i), (64i32, 64i32), inv[i])
}

/// Whether drawing the bar for `inv` keeps every value in range; the
/// window must be at least 64 pixels high.
pub open spec fn bar_fits(items: Map<u32, ScriptedItem>, window: (u32, u32), inv: Seq<Item>) -> bool {
    &&& in_i32(((inv.len() as i32) as int) * 64)
    &&& in_i32(bar_x(window.0, inv.len() as int))
    &&& window.1 >= 64
    &&& forall|i: int| 0 <= i < inv.len() ==> #[trigger] bar_slot_fits(items, window, inv, i)
}

/// Draws the inventory of `player` along the bottom right of a window of
/// `window_size`, the active slot marked.
pub fn prepare(mesh: &mut TextMesh, items: &ScriptedItemList, window_size: (u32, u32), player: &Character)
    requires
        bar_fits(items.items@, window_size, player.inventory_spec()),
    ensures
        final(mesh).pending() == old(mesh).pending() + bar_vertices(
            items.items@,
            window_size,
            player.inventory_spec(),
            player.active_spec(),
            player.inventory_spec().len() as int,
        ),
        final(mesh).uploaded() == old(mesh).uploaded(),
{
    let (window_width, window_height) = window_size;
    let active_i = player.inventory_active();
    let inv = player.inventory();
    let x = window_width as i32 - inv.len() as i32 * 64;
    let y = (window_height - 64) as i32;
    let size: (i32, i32) = (64, 64);
    let ghost start = mesh.pending();
    let mut i: usize = 0;
    while i < inv.len()
        invariant
            i <= inv.len(),
            inv@ == player.inventory_spec(),
            active_i == player.active_spec(),
            bar_fits(items.items@, window_size, inv@),
            x == bar_x(window_size.0, inv@.len() as int),
            y == bar_y(window_size.1),
            size == (64i32, 64i32),
            mesh.pending() == start + bar_vertices(items.items@, window_size, inv@, active_i as int, i as int),
            mesh.uploaded() == old(mesh).uploaded(),
        decreases inv.len() - i,
    {
        assert(bar_slot_fits(items.items@, window_size, inv@, i as int));
        let pos = (x + i as i32 * 64, y);
        prepare_slot(mesh, items, pos, size, i == active_i, inv[i]);
        i = i + 1;
    }
}

/// Draws one slot at `pos` of `size` holding `item`.
fn prepare_slot(
    mesh: &mut TextMesh,
    items: &ScriptedItemList,
    pos: (i32, i32),
    size: (i32, i32),
    active: bool,
    item: Item,
)
    requires
        slot_fits(items.items@, pos, size, item),
    ensures
        final(mesh).pending() == old(mesh).pending() + slot_vertices(items.items@, pos, size, active, item),
        final(mesh).uploaded() == old(mesh).uploaded(),
{
    let p = (pos.0 as i16, pos.1 as i16, size.0 as i16, size.1 as i16);
    let tex = (76, 124, 4, 4);
    let rgba: [u8; 4] = [0x3F, 0x3F, 0x3F, 0x1F];
    mesh.push_box(p, tex, rgba);

    let tex = (if active { 84 } else { 80 }, 124, 4, 4);
    let rgba: [u8; 4] = [0xFF, 0xFF, 0xFF, 0xFF];
    mesh.push_box(p, tex, rgba);

    let p = (
        (pos.0 + size.0 / 16) as i16,
        (pos.1 + size.0 / 16) as i16,
        (size.0 - size.0 / 8) as i16,
        (size.1 - size.1 / 8) as i16,
    );
    match item {
        Item::Block(bi) => {
            let tex = (((bi.block % 32) * 4) as i16, ((bi.block / 32) * 4) as i16, 4, 4);
            mesh.push_box(p, tex, rgba);
            let text = amount_text(bi.amount);
            proof {
                lemma_decimal_len(bi.amount as nat);
            }
            mesh.push_string((pos.0 + 4) as i16, (pos.1 + size.1 - 12) as i16, 1, rgba, text.as_str());
        },
        Item::Scripted(id) => {
            let icon = match items.get_icon(id) {
                Some(icon) => icon,
                None => 0,
            };
            let amount = match items.get_amount(id) {
                Some(amount) => amount,
                None => 0,
            };
            let tex = (((icon % 32) * 4) as i16, ((icon / 32) * 4) as i16 + ((256 / 32) * 4), 4, 4);
            mesh.push_box(p, tex, rgba);
            let text = amount_text(amount);
            proof {
                lemma_decimal_len(amount as nat);
            }
            mesh.push_string((pos.0 + 4) as i16, (pos.1 + size.1 - 12) as i16, 1, rgba, text.as_str());
        },
        Item::Empty => {},
    }
}

} // verus!
