//! The state of a character apart from its place and motion in space: what
//! it holds, what it mines, its health, experience and cooldowns.
use vstd::prelude::*;
use crate::experience::Experience;
use crate::health::{can_change, clamped, Health};
use crate::item::{BlockItem, Item};
use crate::pos::IVec3;
use crate::time::{instant_now, millis_since, Instant};

verus! {

/// The animation a character plays: none, or a hit that started at a time.
#[derive(Copy, Clone, Debug, PartialEq, Eq)]
pub enum CharacterAnimation {
    Idle,
    Hit(Instant),
}

impl Default for CharacterAnimation {
    /// No animation.
    fn default() -> (r: Self)
        ensures
            r == CharacterAnimation::Idle,
    {
        CharacterAnimation::Idle
    }
}

/// Whether a ray cast reports the solid block it hits or the cell in front
/// of that block.
#[derive(Clone, Copy, Debug, PartialEq, Eq, Structural)]
pub enum RaycastReturn {
    Within,
    Front,
}

impl Default for RaycastReturn {
    /// The solid block itself.
    fn default() -> (r: Self)
        ensures
            r == RaycastReturn::Within,
    {
        RaycastReturn::Within
    }
}

/// What a hard landing did to a character.
#[derive(Clone, Copy, Debug, PartialEq, Eq, Structural)]
pub enum FallOutcome {
    /// Nothing.
    Unhurt,
    /// It lost this many hit points and lives.
    Hurt(i16),
    /// It died and was started over.
    Died,
}

/// The state of a character apart from its place and motion in space.
#[derive(Clone, Debug)]
pub struct Character {
    mining: Option<(IVec3, u8)>,
    no_clip: bool,
    cooldown: u64,
    mining_cooldown: u64,
    health: Health,
    experience: Experience,
    inventory_active: usize,
    inventory: Vec<Item>,
    animation: CharacterAnimation,
}

/// A slot after one block was taken from it: the stack shrinks by one and
/// the slot empties when none are left.
pub open spec fn taken_one(bi: BlockItem) -> Item {
    if bi.amount - 1 == 0 {
        Item::Empty
    } else {
        Item::Block(BlockItem { amount: (bi.amount - 1) as u16, ..bi })
    }
}

/// The slot before `a`, wrapping from 0 to the largest `usize`.
pub open spec fn previous_slot(a: int) -> int {
    if a == 0 {
        usize::MAX as int
    } else {
        a - 1
    }
}

/// Whether `it` is a stack of blocks of kind `block`.
pub open spec fn is_stack(it: Item, block: u8) -> bool {
    it matches Item::Block(bi) && bi.block == block
}

/// Whether `it` is a stack of fewer than 99 blocks of kind `block`.
pub open spec fn is_open_stack(it: Item, block: u8) -> bool {
    it matches Item::Block(bi) && bi.block == block && bi.amount < 99
}

/// The first slot of `inv` that holds blocks of kind `block`, or `inv.len()`.
pub open spec fn first_stack(inv: Seq<Item>, block: u8) -> int
    decreases inv.len(),
{
    if inv.len() == 0 {
        0
    } else if is_stack(inv[0], block) {
        0
    } else {
        1 + first_stack(inv.drop_first(), block)
    }
}

/// The first slot of `inv` that holds fewer than 99 blocks of kind `block`,
/// or `inv.len()`.
pub open spec fn first_open_stack(inv: Seq<Item>, block: u8) -> int
    decreases inv.len(),
{
    if inv.len() == 0 {
        0
    } else if is_open_stack(inv[0], block) {
        0
    } else {
        1 + first_open_stack(inv.drop_first(), block)
    }
}

/// The first empty slot of `inv`, or `inv.len()`.
pub open spec fn first_empty(inv: Seq<Item>) -> int
    decreases inv.len(),
{
    if inv.len() == 0 {
        0
    } else if inv[0] is Empty {
        0
    } else {
        1 + first_empty(inv.drop_first())
    }
}

/// `inv` after one block of kind `block` was added: to the first stack of
/// that kind with fewer than 99 blocks, or else as a new stack of one in the
/// first empty slot; with neither, `inv` as it was.
pub open spec fn block_added(inv: Seq<Item>, block: u8) -> Seq<Item> {
    let k = first_open_stack(inv, block);
    let e = first_empty(inv);
    if k < inv.len() {
        inv.update(k, Item::Block(BlockItem { amount: (inv[k]->Block_0.amount + 1) as u16, ..inv[k]->Block_0 }))
    } else if e < inv.len() {
        inv.update(e, Item::Block(BlockItem { block, amount: 1 }))
    } else {
        inv
    }
}

/// `inv` after `n` blocks of kind `block` were added one by one.
pub open spec fn blocks_added(inv: Seq<Item>, block: u8, n: nat) -> Seq<Item>
    decreases n,
{
    if n == 0 {
        inv
    } else {
        block_added(blocks_added(inv, block, (n - 1) as nat), block)
    }
}

/// `inv` after one block of kind `block` was taken from the first stack of
/// that kind; without such a stack, `inv` as it was.
pub open spec fn block_removed(inv: Seq<Item>, block: u8) -> Seq<Item> {
    let k = first_stack(inv, block);
    if k < inv.len() {
        inv.update(k, taken_one(inv[k]->Block_0))
    } else {
        inv
    }
}

/// How many blocks of kind `block` the slot `it` holds.
pub open spec fn amount_of(it: Item, block: u8) -> int {
    if is_stack(it, block) {
        it->Block_0.amount as int
    } else {
        0
    }
}

/// How many blocks of kind `block` the inventory `inv` holds in all.
pub open spec fn block_count(inv: Seq<Item>, block: u8) -> int
    decreases inv.len(),
{
    if inv.len() == 0 {
        0
    } else {
        block_count(inv.drop_last(), block) + amount_of(inv.last(), block)
    }
}

/// Replacing one slot changes the count by the difference of the slots.
proof fn lemma_count_update(inv: Seq<Item>, k: int, it: Item, block: u8)
    requires
        0 <= k < inv.len(),
    ensures
        block_count(inv.update(k, it), block) == block_count(inv, block) - amount_of(inv[k], block) + amount_of(it, block),
    decreases inv.len(),
{
    let n = inv.update(k, it);
    if k == inv.len() - 1 {
        assert(n.drop_last() =~= inv.drop_last());
    } else {
        lemma_count_update(inv.drop_last(), k, it, block);
        assert(n.drop_last() =~= inv.drop_last().update(k, it));
    }
}

/// Adding a block of a kind adds one to the count of that kind, if the
/// inventory has a stack with room or an empty slot, and leaves the count
/// of every other kind as it was.
pub proof fn lemma_add_block_count(inv: Seq<Item>, block: u8, other: u8)
    ensures
        block_count(block_added(inv, block), block) == block_count(inv, block) + if first_open_stack(inv, block)
            < inv.len() || first_empty(inv) < inv.len() {
            1int
        } else {
            0int
        },
        other != block ==> block_count(block_added(inv, block), other) == block_count(inv, other),
{
    lemma_first_open_stack(inv, block);
    lemma_first_empty(inv);
    let k = first_open_stack(inv, block);
    let e = first_empty(inv);
    if k < inv.len() {
        let it = Item::Block(BlockItem { amount: (inv[k]->Block_0.amount + 1) as u16, ..inv[k]->Block_0 });
        lemma_count_update(inv, k, it, block);
        lemma_count_update(inv, k, it, other);
    } else if e < inv.len() {
        let it = Item::Block(BlockItem { block, amount: 1 });
        lemma_count_update(inv, e, it, block);
        lemma_count_update(inv, e, it, other);
    }
}

/// The first open stack of `block` is the slot `k` that is an open stack
/// with none before it.
proof fn lemma_first_open_stack_is(inv: Seq<Item>, block: u8, k: int)
    requires
        0 <= k < inv.len(),
        is_open_stack(inv[k], block),
        forall|j: int| 0 <= j < k ==> !is_open_stack(#[trigger] inv[j], block),
    ensures
        first_open_stack(inv, block) == k,
{
    lemma_first_open_stack(inv, block);
    let f = first_open_stack(inv, block);
    if f < k {
        assert(!is_open_stack(inv[f], block));
    } else if f > k {
        assert(!is_open_stack(inv[k], block));
    }
}

/// Adding a block when some slot holds a stack of its kind with fewer than
/// 99 blocks: the first such stack grows by one, and every other slot stays
/// as it was (an empty slot before that stack stays empty).
pub proof fn lemma_add_block_to_stack(inv: Seq<Item>, block: u8, k: int)
    requires
        0 <= k < inv.len(),
        inv[k] matches Item::Block(bi) && bi.block == block && bi.amount < 99,
        forall|j: int| 0 <= j < k ==> !(#[trigger] inv[j] matches Item::Block(bj) && bj.block == block && bj.amount < 99),
    ensures
        block_added(inv, block).len() == inv.len(),
        block_added(inv, block)[k] == Item::Block(BlockItem { block, amount: (inv[k]->Block_0.amount + 1) as u16 }),
        forall|j: int| 0 <= j < inv.len() && j != k ==> #[trigger] block_added(inv, block)[j] == inv[j],
{
    assert forall|j: int| 0 <= j < k implies !is_open_stack(#[trigger] inv[j], block) by {
        assert(!(inv[j] matches Item::Block(bj) && bj.block == block && bj.amount < 99));
    }
    lemma_first_open_stack_is(inv, block, k);
}

/// Adding a block when no slot holds a stack of its kind with room: the
/// first empty slot gets a stack of one such block, and every other slot
/// stays as it was.
pub proof fn lemma_add_block_to_empty(inv: Seq<Item>, block: u8, e: int)
    requires
        forall|j: int| 0 <= j < inv.len() ==> !(#[trigger] inv[j] matches Item::Block(bj) && bj.block == block && bj.amount < 99),
        0 <= e < inv.len(),
        inv[e] is Empty,
        forall|j: int| 0 <= j < e ==> !(#[trigger] inv[j] is Empty),
    ensures
        block_added(inv, block).len() == inv.len(),
        block_added(inv, block)[e] == Item::Block(BlockItem { block, amount: 1 }),
        forall|j: int| 0 <= j < inv.len() && j != e ==> #[trigger] block_added(inv, block)[j] == inv[j],
{
    lemma_first_open_stack(inv, block);
    lemma_first_empty(inv);
    let f = first_open_stack(inv, block);
    if f < inv.len() {
        assert(!(inv[f] matches Item::Block(bj) && bj.block == block && bj.amount < 99));
    }
    let g = first_empty(inv);
    if g < e {
        assert(!(inv[g] is Empty));
    } else if g > e {
        assert(!(inv[e] is Empty));
    }
}

/// Adding a block when no slot holds a stack of its kind with room and no
/// slot is empty changes nothing: the block does not fit.
pub proof fn lemma_add_block_full(inv: Seq<Item>, block: u8)
    requires
        forall|j: int| 0 <= j < inv.len() ==> !(#[trigger] inv[j] matches Item::Block(bj) && bj.block == block && bj.amount < 99),
        forall|j: int| 0 <= j < inv.len() ==> !(#[trigger] inv[j] is Empty),
    ensures
        block_added(inv, block) == inv,
{
    lemma_first_open_stack(inv, block);
    lemma_first_empty(inv);
    let f = first_open_stack(inv, block);
    if f < inv.len() {
        assert(!(inv[f] matches Item::Block(bj) && bj.block == block && bj.amount < 99));
    }
    let g = first_empty(inv);
    if g < inv.len() {
        assert(!(inv[g] is Empty));
    }
}

/// Taking a block of a kind takes one from the count of that kind, if the
/// inventory holds a stack of it, and leaves the count of every other kind
/// as it was.
pub proof fn lemma_remove_block_count(inv: Seq<Item>, block: u8, other: u8)
    requires
        first_stack(inv, block) < inv.len() ==> inv[first_stack(inv, block)]->Block_0.amount >= 1,
    ensures
        block_count(block_removed(inv, block), block) == block_count(inv, block) - if first_stack(inv, block)
            < inv.len() {
            1int
        } else {
            0int
        },
        other != block ==> block_count(block_removed(inv, block), other) == block_count(inv, other),
{
    lemma_first_stack(inv, block);
    let k = first_stack(inv, block);
    if k < inv.len() {
        let it = taken_one(inv[k]->Block_0);
        lemma_count_update(inv, k, it, block);
        lemma_count_update(inv, k, it, other);
    }
}

proof fn lemma_first_stack(inv: Seq<Item>, block: u8)
    ensures
        0 <= first_stack(inv, block) <= inv.len(),
        forall|k: int| 0 <= k < first_stack(inv, block) ==> !(is_stack(#[trigger] inv[k], block)),
        first_stack(inv, block) < inv.len() ==> is_stack(inv[first_stack(inv, block)], block),
    decreases inv.len(),
{
    if inv.len() > 0 {
        lemma_first_stack(inv.drop_first(), block);
        assert forall|k: int| 0 <= k < first_stack(inv, block) implies !(is_stack(#[trigger] inv[k], block)) by {
            if k > 0 {
                assert(inv[k] == inv.drop_first()[k - 1]);
            }
        }
    }
}

proof fn lemma_first_open_stack(inv: Seq<Item>, block: u8)
    ensures
        0 <= first_open_stack(inv, block) <= inv.len(),
        forall|k: int| 0 <= k < first_open_stack(inv, block) ==> !(is_open_stack(#[trigger] inv[k], block)),
        first_open_stack(inv, block) < inv.len() ==> is_open_stack(inv[first_open_stack(inv, block)], block),
    decreases inv.len(),
{
    if inv.len() > 0 {
        lemma_first_open_stack(inv.drop_first(), block);
        assert forall|k: int| 0 <= k < first_open_stack(inv, block) implies !(is_open_stack(#[trigger] inv[k], block)) by {
            if k > 0 {
                assert(inv[k] == inv.drop_first()[k - 1]);
            }
        }
    }
}

proof fn lemma_first_empty(inv: Seq<Item>)
    ensures
        0 <= first_empty(inv) <= inv.len(),
        forall|k: int| 0 <= k < first_empty(inv) ==> !(#[trigger] inv[k] is Empty),
        first_empty(inv) < inv.len() ==> inv[first_empty(inv)] is Empty,
    decreases inv.len(),
{
    if inv.len() > 0 {
        lemma_first_empty(inv.drop_first());
        assert forall|k: int| 0 <= k < first_empty(inv) implies !(#[trigger] inv[k] is Empty) by {
            if k > 0 {
                assert(inv[k] == inv.drop_first()[k - 1]);
            }
        }
    }
}

impl Default for Character {
    fn default() -> (r: Self)
        ensures
            r.mining_spec() is None,
            !r.no_clip_spec(),
            r.cooldown_spec() == 0,
            r.mining_cooldown_spec() == 0,
            r.health_spec().hp() == 12 && r.health_spec().max_hp() == 12,
            r.experience_spec().xp_spec() == 0 && r.experience_spec().xp_total_spec() == 0,
            r.experience_spec().next_level_spec() == 32 && r.experience_spec().level_spec() == 1,
            r.active_spec() == 0,
            r.inventory_spec().len() == 0,
            r.animation_spec() == CharacterAnimation::Idle,
    {
        Character {
            mining: None,
            no_clip: false,
            cooldown: 0,
            mining_cooldown: 0,
            health: Health::default(),
            experience: Experience::default(),
            inventory_active: 0,
            inventory: Vec::new(),
            animation: CharacterAnimation::Idle,
        }
    }
}

impl Character {
    pub closed spec fn mining_spec(&self) -> Option<(IVec3, u8)> {
        self.mining
    }

    pub closed spec fn no_clip_spec(&self) -> bool {
        self.no_clip
    }

    /// The time (in milliseconds of game time) until which the character
    /// cannot act.
    pub closed spec fn cooldown_spec(&self) -> u64 {
        self.cooldown
    }

    /// The time until which the character cannot mine.
    pub closed spec fn mining_cooldown_spec(&self) -> u64 {
        self.mining_cooldown
    }

    pub closed spec fn health_spec(&self) -> Health {
        self.health
    }

    pub closed spec fn experience_spec(&self) -> Experience {
        self.experience
    }

    /// The selected inventory slot.
    pub closed spec fn active_spec(&self) -> int {
        self.inventory_active as int
    }

    pub closed spec fn inventory_spec(&self) -> Seq<Item> {
        self.inventory@
    }

    pub closed spec fn animation_spec(&self) -> CharacterAnimation {
        self.animation
    }

    /// `self` and `other` agree on everything but the inventory and the
    /// selected slot.
    pub open spec fn same_but_inventory(&self, other: &Character) -> bool {
        &&& self.mining_spec() == other.mining_spec()
        &&& self.no_clip_spec() == other.no_clip_spec()
        &&& self.cooldown_spec() == other.cooldown_spec()
        &&& self.mining_cooldown_spec() == other.mining_cooldown_spec()
        &&& self.health_spec() == other.health_spec()
        &&& self.experience_spec() == other.experience_spec()
        &&& self.animation_spec() == other.animation_spec()
    }

    pub fn new() -> (r: Self)
        ensures
            r.mining_spec() is None,
            !r.no_clip_spec(),
            r.cooldown_spec() == 0,
            r.mining_cooldown_spec() == 0,
            r.health_spec().hp() == 12 && r.health_spec().max_hp() == 12,
            r.experience_spec().xp_spec() == 0 && r.experience_spec().xp_total_spec() == 0,
            r.experience_spec().next_level_spec() == 32 && r.experience_spec().level_spec() == 1,
            r.active_spec() == 0,
            r.inventory_spec().len() == 0,
            r.animation_spec() == CharacterAnimation::Idle,
    {
        Self::default()
    }

    /// Whether `self` is `other` started over: ten empty slots with the
    /// first selected, full health of 12, experience reset and then 8 points
    /// gained, everything else kept.
    pub open spec fn reborn_from(&self, other: &Character) -> bool {
        &&& self.inventory_spec() == Seq::new(10, |i: int| Item::Empty)
        &&& self.active_spec() == 0
        &&& self.health_spec().hp() == 12 && self.health_spec().max_hp() == 12
        &&& self.experience_spec().xp_spec() == 8
        &&& self.experience_spec().xp_total_spec() == 0
        &&& self.experience_spec().next_level_spec() == 32
        &&& self.experience_spec().level_spec() == 1
        &&& self.mining_spec() == other.mining_spec()
        &&& self.no_clip_spec() == other.no_clip_spec()
        &&& self.cooldown_spec() == other.cooldown_spec()
        &&& self.mining_cooldown_spec() == other.mining_cooldown_spec()
        &&& self.animation_spec() == other.animation_spec()
    }

    /// Starts the character over: ten empty slots with the first selected,
    /// full health of 12, experience reset and then 8 points gained.
    pub fn rebirth(&mut self)
        ensures
            final(self).reborn_from(old(self)),
    {
        self.inventory.clear();
        self.inventory.resize(10, Item::Empty);
        self.set_inventory_active(0);
        self.health.set_max_health(12);
        self.health.set_full_health();
        self.experience.reset();
        self.experience.gain(8);
        assert(self.inventory@ =~= Seq::new(10, |i: int| Item::Empty));
    }

    pub fn experience(&self) -> (r: &Experience)
        ensures
            *r == self.experience_spec(),
    {
        &self.experience
    }

    pub fn experience_mut(&mut self) -> (r: &mut Experience)
        ensures
            *r == old(self).experience_spec(),
            final(self).experience_spec() == *final(r),
            final(self).same_but_experience(old(self)),
    {
        &mut self.experience
    }

    /// `self` and `other` agree on everything but the experience.
    pub open spec fn same_but_experience(&self, other: &Character) -> bool {
        &&& self.mining_spec() == other.mining_spec()
        &&& self.no_clip_spec() == other.no_clip_spec()
        &&& self.cooldown_spec() == other.cooldown_spec()
        &&& self.mining_cooldown_spec() == other.mining_cooldown_spec()
        &&& self.health_spec() == other.health_spec()
        &&& self.active_spec() == other.active_spec()
        &&& self.inventory_spec() == other.inventory_spec()
        &&& self.animation_spec() == other.animation_spec()
    }

    /// The block being mined, with its kind.
    pub fn mining(&self) -> (r: Option<(IVec3, u8)>)
        ensures
            r == self.mining_spec(),
    {
        self.mining
    }

    pub fn set_mining(&mut self, m: Option<(IVec3, u8)>)
        ensures
            final(self).mining_spec() == m,
            final(self).no_clip_spec() == old(self).no_clip_spec(),
            final(self).cooldown_spec() == old(self).cooldown_spec(),
            final(self).mining_cooldown_spec() == old(self).mining_cooldown_spec(),
            final(self).health_spec() == old(self).health_spec(),
            final(self).experience_spec() == old(self).experience_spec(),
            final(self).active_spec() == old(self).active_spec(),
            final(self).inventory_spec() == old(self).inventory_spec(),
            final(self).animation_spec() == old(self).animation_spec(),
    {
        self.mining = m;
    }

    pub fn no_clip(&self) -> (r: bool)
        ensures
            r == self.no_clip_spec(),
    {
        self.no_clip
    }

    pub fn set_no_clip(&mut self, no_clip: bool)
        ensures
            final(self).no_clip_spec() == no_clip,
            final(self).mining_spec() == old(self).mining_spec(),
            final(self).cooldown_spec() == old(self).cooldown_spec(),
            final(self).mining_cooldown_spec() == old(self).mining_cooldown_spec(),
            final(self).health_spec() == old(self).health_spec(),
            final(self).experience_spec() == old(self).experience_spec(),
            final(self).active_spec() == old(self).active_spec(),
            final(self).inventory_spec() == old(self).inventory_spec(),
            final(self).animation_spec() == old(self).animation_spec(),
    {
        self.no_clip = no_clip;
    }

    /// Whether the cooldown has passed at time `now`.
    pub fn may_act(&self, now: u64) -> (r: bool)
        ensures
            r == (self.cooldown_spec() < now),
    {
        self.cooldown < now
    }

    /// Whether the mining cooldown has passed at time `now`.
    pub fn may_mine(&self, now: u64) -> (r: bool)
        ensures
            r == (self.mining_cooldown_spec() < now),
    {
        self.mining_cooldown < now
    }

    pub fn set_cooldown(&mut self, until: u64)
        ensures
            final(self).cooldown_spec() == until,
            final(self).mining_spec() == old(self).mining_spec(),
            final(self).no_clip_spec() == old(self).no_clip_spec(),
            final(self).mining_cooldown_spec() == old(self).mining_cooldown_spec(),
            final(self).health_spec() == old(self).health_spec(),
            final(self).experience_spec() == old(self).experience_spec(),
            final(self).active_spec() == old(self).active_spec(),
            final(self).inventory_spec() == old(self).inventory_spec(),
            final(self).animation_spec() == old(self).animation_spec(),
    {
        self.cooldown = until;
    }

    pub fn health(&self) -> (r: Health)
        ensures
            r == self.health_spec(),
    {
        self.health
    }

    /// Sets the maximum health and heals to it.
    pub fn set_max_health(&mut self, amount: i16)
        ensures
            final(self).health_spec().max_hp() == amount,
            final(self).health_spec().hp() == amount,
            final(self).same_but_health(old(self)),
    {
        self.health.set_max_health(amount);
        self.health.set_full_health();
    }

    /// `self` and `other` agree on everything but the health.
    pub open spec fn same_but_health(&self, other: &Character) -> bool {
        &&& self.mining_spec() == other.mining_spec()
        &&& self.no_clip_spec() == other.no_clip_spec()
        &&& self.cooldown_spec() == other.cooldown_spec()
        &&& self.mining_cooldown_spec() == other.mining_cooldown_spec()
        &&& self.experience_spec() == other.experience_spec()
        &&& self.active_spec() == other.active_spec()
        &&& self.inventory_spec() == other.inventory_spec()
        &&& self.animation_spec() == other.animation_spec()
    }

    /// The item in the selected slot.
    pub fn item(&self) -> (r: Item)
        requires
            self.active_spec() < self.inventory_spec().len(),
        ensures
            r == self.inventory_spec()[self.active_spec()],
    {
        self.inventory[self.inventory_active]
    }

    /// The item in slot `pos`.
    pub fn item_at(&self, pos: usize) -> (r: Item)
        requires
            pos < self.inventory_spec().len(),
        ensures
            r == self.inventory_spec()[pos as int],
    {
        self.inventory[pos]
    }

    pub fn inventory(&self) -> (r: &Vec<Item>)
        ensures
            r@ == self.inventory_spec(),
    {
        &self.inventory
    }

    pub fn inventory_mut(&mut self) -> (r: &mut Vec<Item>)
        ensures
            r@ == old(self).inventory_spec(),
            final(self).inventory_spec() == final(r)@,
            final(self).active_spec() == old(self).active_spec(),
            final(self).same_but_inventory(old(self)),
    {
        &mut self.inventory
    }

    pub fn inventory_active(&self) -> (r: usize)
        ensures
            r == self.active_spec(),
    {
        self.inventory_active
    }

    /// Selects slot `v`, clamped to `0..=len` where `len` is the number of
    /// slots.
    pub fn set_inventory_active(&mut self, v: usize)
        ensures
            final(self).active_spec() == vstd::math::min(v as int, old(self).inventory_spec().len() as int),
            final(self).inventory_spec() == old(self).inventory_spec(),
            final(self).same_but_inventory(old(self)),
    {
        let len = self.inventory.len();
        self.inventory_active = if v > len {
            len
        } else {
            v
        };
    }

    pub fn is_dead(&self) -> (r: bool)
        ensures
            r == (self.health_spec().hp() <= 0),
    {
        self.health.is_dead()
    }

    pub fn animation(&self) -> (r: CharacterAnimation)
        ensures
            r == self.animation_spec(),
    {
        self.animation
    }

    pub fn set_animation_none(&mut self)
        ensures
            final(self).animation_spec() == CharacterAnimation::Idle,
            final(self).same_but_animation(old(self)),
    {
        self.animation = CharacterAnimation::Idle;
    }

    /// `self` and `other` agree on everything but the animation.
    pub open spec fn same_but_animation(&self, other: &Character) -> bool {
        &&& self.mining_spec() == other.mining_spec()
        &&& self.no_clip_spec() == other.no_clip_spec()
        &&& self.cooldown_spec() == other.cooldown_spec()
        &&& self.mining_cooldown_spec() == other.mining_cooldown_spec()
        &&& self.health_spec() == other.health_spec()
        &&& self.experience_spec() == other.experience_spec()
        &&& self.active_spec() == other.active_spec()
        &&& self.inventory_spec() == other.inventory_spec()
    }

    /// Starts a hit animation at the current time.
    pub fn set_animation_hit(&mut self)
        ensures
            final(self).animation_spec() is Hit,
            final(self).same_but_animation(old(self)),
    {
        self.animation = CharacterAnimation::Hit(instant_now());
    }

    /// The animation after a hit animation was checked when `elapsed`
    /// milliseconds had passed since it started: a hit ends once more than
    /// 500 milliseconds have passed.
    pub open spec fn animation_after(a: CharacterAnimation, elapsed: int) -> CharacterAnimation {
        if a is Hit && elapsed > 500 {
            CharacterAnimation::Idle
        } else {
            a
        }
    }

    /// Ends the hit animation if `elapsed`, the milliseconds since it
    /// started, exceeds 500.
    pub fn end_hit_after(&mut self, elapsed: u128)
        ensures
            final(self).animation_spec() == Self::animation_after(old(self).animation_spec(), elapsed as int),
            final(self).same_but_animation(old(self)),
    {
        if let CharacterAnimation::Hit(_) = self.animation {
            if elapsed > 500 {
                self.set_animation_none();
            }
        }
    }

    /// Ends a hit animation that started more than 500 milliseconds ago;
    /// how long ago it started is read from the clock.
    pub fn check_animation(&mut self)
        ensures
            exists|elapsed: int|
                elapsed >= 0 && #[trigger] Self::animation_after(old(self).animation_spec(), elapsed)
                    == final(self).animation_spec(),
            old(self).animation_spec() is Idle ==> final(self).animation_spec() is Idle,
            final(self).same_but_animation(old(self)),
    {
        if let CharacterAnimation::Hit(t) = self.animation {
            let elapsed = millis_since(t);
            self.end_hit_after(elapsed);
            assert(Self::animation_after(old(self).animation_spec(), elapsed as int) == self.animation_spec());
        } else {
            assert(Self::animation_after(old(self).animation_spec(), 0) == self.animation_spec());
        }
    }

    /// Moves the selection: a negative `delta` selects the next slot (after
    /// the last comes the first); otherwise the previous one (before the
    /// first comes the last).
    pub fn switch_selection(&mut self, delta: i32)
        requires
            delta < 0 ==> old(self).inventory_spec().len() > 0 && old(self).active_spec() < usize::MAX,
            delta >= 0 && previous_slot(old(self).active_spec()) > old(self).inventory_spec().len()
                ==> old(self).inventory_spec().len() > 0,
        ensures
            final(self).active_spec() == if delta < 0 {
                (old(self).active_spec() + 1) % (old(self).inventory_spec().len() as int)
            } else if previous_slot(old(self).active_spec()) > old(self).inventory_spec().len() {
                old(self).inventory_spec().len() - 1
            } else {
                previous_slot(old(self).active_spec())
            },
            final(self).inventory_spec() == old(self).inventory_spec(),
            final(self).same_but_inventory(old(self)),
    {
        if delta < 0 {
            self.inventory_active = (self.inventory_active + 1) % self.inventory.len();
        } else {
            self.inventory_active = if self.inventory_active == 0 {
                usize::MAX
            } else {
                self.inventory_active - 1
            };
            if self.inventory_active > self.inventory.len() {
                self.inventory_active = self.inventory.len() - 1;
            }
        }
    }

    pub fn mining_cooldown(&self) -> (r: u64)
        ensures
            r == self.mining_cooldown_spec(),
    {
        self.mining_cooldown
    }

    pub fn set_mining_cooldown(&mut self, mc: u64)
        ensures
            final(self).mining_cooldown_spec() == mc,
            final(self).mining_spec() == old(self).mining_spec(),
            final(self).no_clip_spec() == old(self).no_clip_spec(),
            final(self).cooldown_spec() == old(self).cooldown_spec(),
            final(self).health_spec() == old(self).health_spec(),
            final(self).experience_spec() == old(self).experience_spec(),
            final(self).active_spec() == old(self).active_spec(),
            final(self).inventory_spec() == old(self).inventory_spec(),
            final(self).animation_spec() == old(self).animation_spec(),
    {
        self.mining_cooldown = mc;
    }

    /// Taking a block from the first stack of kind `block` does not empty a
    /// stack that is already empty.
    pub open spec fn remove_fits(&self, block: u8) -> bool {
        let k = first_stack(self.inventory_spec(), block);
        k < self.inventory_spec().len() ==> self.inventory_spec()[k]->Block_0.amount >= 1
    }

    /// Takes one block of kind `block` from the first stack of that kind;
    /// a stack that runs out becomes an empty slot. Without such a stack
    /// nothing changes.
    pub fn remove_block_from_inventory(&mut self, block: u8)
        requires
            old(self).remove_fits(block),
        ensures
            final(self).inventory_spec() == block_removed(old(self).inventory_spec(), block),
            final(self).inventory_spec().len() == old(self).inventory_spec().len(),
            final(self).active_spec() == old(self).active_spec(),
            final(self).same_but_inventory(old(self)),
    {
        proof {
            lemma_first_stack(self.inventory@, block);
        }
        let ghost inv = self.inventory@;
        let mut i: usize = 0;
        while i < self.inventory.len()
            invariant
                inv == old(self).inventory_spec(),
                self.inventory@ == inv,
                self.inventory_active == old(self).inventory_active,
                self.same_but_inventory(old(self)),
                i <= inv.len(),
                i <= first_stack(inv, block),
                old(self).remove_fits(block),
                0 <= first_stack(inv, block) <= inv.len(),
                forall|k: int| 0 <= k < first_stack(inv, block) ==> !is_stack(#[trigger] inv[k], block),
                first_stack(inv, block) < inv.len() ==> is_stack(inv[first_stack(inv, block)], block),
            decreases inv.len() - i,
        {
            if let Item::Block(bi) = self.inventory[i] {
                if bi.block == block {
                    assert(i == first_stack(inv, block));
                    let amount = bi.amount - 1;
                    let it = if amount == 0 {
                        Item::Empty
                    } else {
                        Item::Block(BlockItem { amount, ..bi })
                    };
                    self.inventory.set(i, it);
                    return;
                }
            }
            i = i + 1;
        }
    }

    /// Adds one block of kind `block`: to the first stack of that kind with
    /// fewer than 99 blocks, or else as a new stack of one in the first empty
    /// slot. With neither, nothing changes.
    pub fn add_block_to_inventory(&mut self, block: u8)
        ensures
            final(self).inventory_spec() == block_added(old(self).inventory_spec(), block),
            final(self).inventory_spec().len() == old(self).inventory_spec().len(),
            final(self).active_spec() == old(self).active_spec(),
            final(self).same_but_inventory(old(self)),
    {
        proof {
            lemma_first_open_stack(self.inventory@, block);
            lemma_first_empty(self.inventory@);
        }
        let ghost inv = self.inventory@;
        let mut i: usize = 0;
        while i < self.inventory.len()
            invariant
                inv == old(self).inventory_spec(),
                self.inventory@ == inv,
                self.inventory_active == old(self).inventory_active,
                self.same_but_inventory(old(self)),
                i <= inv.len(),
                i <= first_open_stack(inv, block),
                0 <= first_open_stack(inv, block) <= inv.len(),
                forall|k: int| 0 <= k < first_open_stack(inv, block) ==> !is_open_stack(#[trigger] inv[k], block),
                first_open_stack(inv, block) < inv.len() ==> is_open_stack(inv[first_open_stack(inv, block)], block),
            decreases inv.len() - i,
        {
            if let Item::Block(bi) = self.inventory[i] {
                if bi.block == block && bi.amount < 99 {
                    assert(i == first_open_stack(inv, block));
                    self.inventory.set(i, Item::Block(BlockItem { amount: bi.amount + 1, ..bi }));
                    return;
                }
            }
            i = i + 1;
        }
        let mut i: usize = 0;
        while i < self.inventory.len()
            invariant
                inv == old(self).inventory_spec(),
                self.inventory@ == inv,
                self.inventory_active == old(self).inventory_active,
                self.same_but_inventory(old(self)),
                first_open_stack(inv, block) == inv.len(),
                i <= inv.len(),
                i <= first_empty(inv),
                0 <= first_empty(inv) <= inv.len(),
                forall|k: int| 0 <= k < first_empty(inv) ==> !(#[trigger] inv[k] is Empty),
                first_empty(inv) < inv.len() ==> inv[first_empty(inv)] is Empty,
            decreases inv.len() - i,
        {
            if let Item::Empty = self.inventory[i] {
                assert(i == first_empty(inv));
                self.inventory.set(i, Item::Block(BlockItem::new(block, 1)));
                return;
            }
            i = i + 1;
        }
    }

    /// Drops from slot `pos`: one block of a stack of more than one, which
    /// stays with one block less; otherwise the whole content of the slot,
    /// which becomes empty. Returns what was dropped.
    pub fn drop_item(&mut self, pos: usize) -> (r: Item)
        requires
            pos < old(self).inventory_spec().len(),
        ensures
            ({
                let it = old(self).inventory_spec()[pos as int];
                let bi = it->Block_0;
                if it is Block && bi.amount > 1 {
                    &&& r == Item::Block(BlockItem { block: bi.block, amount: 1 })
                    &&& final(self).inventory_spec() == old(self).inventory_spec().update(
                        pos as int,
                        Item::Block(BlockItem { block: bi.block, amount: (bi.amount - 1) as u16 }),
                    )
                } else {
                    &&& r == it
                    &&& final(self).inventory_spec() == old(self).inventory_spec().update(pos as int, Item::Empty)
                }
            }),
            final(self).inventory_spec().len() == old(self).inventory_spec().len(),
            final(self).active_spec() == old(self).active_spec(),
            final(self).same_but_inventory(old(self)),
    {
        let item = self.item_at(pos);
        if let Item::Block(bi) = item {
            if bi.amount > 1 {
                let item = BlockItem::new(bi.block, 1).into();
                self.inventory.set(pos, BlockItem::new(bi.block, bi.amount - 1).into());
                return item;
            }
        }
        self.inventory.set(pos, Item::Empty);
        item
    }

    /// What a hard landing of strength `amount` does: above 0 the character
    /// takes `amount * amount` hit points; one that dies is started over
    /// (see [`Character::rebirth`]).
    pub fn take_fall_damage(&mut self, amount: i16) -> (r: FallOutcome)
        requires
            amount > 0 ==> amount * amount <= i16::MAX && can_change(old(self).health_spec(), -(amount * amount)),
        ensures
            amount <= 0 ==> r == FallOutcome::Unhurt && *final(self) == *old(self),
            amount > 0 ==> {
                let hp = clamped(old(self).health_spec().hp() - amount * amount, 0, old(self).health_spec().max_hp());
                if hp <= 0 {
                    &&& r == FallOutcome::Died
                    &&& final(self).reborn_from(old(self))
                } else {
                    &&& r == FallOutcome::Hurt((amount * amount) as i16)
                    &&& final(self).health_spec().hp() == hp
                    &&& final(self).health_spec().max_hp() == old(self).health_spec().max_hp()
                    &&& final(self).same_but_health(old(self))
                }
            },
    {
        if amount > 0 {
            let damage = amount * amount;
            self.health.damage(damage);
            if self.health.is_dead() {
                self.rebirth();
                FallOutcome::Died
            } else {
                FallOutcome::Hurt(damage)
            }
        } else {
            FallOutcome::Unhurt
        }
    }

    /// What a character does when it gains `xp` experience points: it gains
    /// them, and on a level up its maximum health becomes `4 * level + 8` and
    /// it is healed fully. Returns the new level after a level up.
    pub fn on_gain_experience(&mut self, xp: u64) -> (r: Option<u8>)
        requires
            old(self).experience_spec().xp_spec() + xp <= u64::MAX,
            ({
                let e = old(self).experience_spec();
                e.xp_spec() + xp >= e.next_level_spec() ==> {
                    &&& e.xp_total_spec() + e.next_level_spec() <= u64::MAX
                    &&& e.next_level_spec() * 3 <= u64::MAX
                    &&& e.level_spec() < 255
                }
            }),
        ensures
            ({
                let e = old(self).experience_spec();
                let f = final(self).experience_spec();
                &&& f.score() == e.score() + xp
                &&& (e.xp_spec() + xp >= e.next_level_spec()) == (r is Some)
                &&& r is Some ==> {
                    &&& f.level_spec() == e.level_spec() + 1
                    &&& r->0 == f.level_spec()
                    &&& f.xp_spec() == e.xp_spec() + xp - e.next_level_spec()
                    &&& f.next_level_spec() == e.next_level_spec() * 3
                    &&& final(self).health_spec().max_hp() == 4 * f.level_spec() + 8
                    &&& final(self).health_spec().hp() == 4 * f.level_spec() + 8
                }
                &&& r is None ==> {
                    &&& f.level_spec() == e.level_spec()
                    &&& f.xp_spec() == e.xp_spec() + xp
                    &&& f.next_level_spec() == e.next_level_spec()
                    &&& final(self).health_spec() == old(self).health_spec()
                }
            }),
            final(self).active_spec() == old(self).active_spec(),
            final(self).inventory_spec() == old(self).inventory_spec(),
            final(self).mining_spec() == old(self).mining_spec(),
            final(self).cooldown_spec() == old(self).cooldown_spec(),
            final(self).animation_spec() == old(self).animation_spec(),
    {
        self.experience.gain(xp);
        if self.experience.level_up() {
            let level = self.experience.level();
            self.set_max_health(level as i16 * 4 + 8);
            Some(level)
        } else {
            None
        }
    }

    /// What a character does when the player strikes at time `now`: if it
    /// may act, it starts a hit animation and cannot act for 400
    /// milliseconds. Returns whether it strikes.
    pub fn on_player_strike(&mut self, now: u64) -> (r: bool)
        requires
            now + 400 <= u64::MAX,
        ensures
            r == (old(self).cooldown_spec() < now),
            r ==> final(self).cooldown_spec() == now + 400 && final(self).animation_spec() is Hit,
            !r ==> *final(self) == *old(self),
            final(self).same_but_animation(old(self)) || r,
            final(self).inventory_spec() == old(self).inventory_spec(),
            final(self).active_spec() == old(self).active_spec(),
            final(self).mining_cooldown_spec() == old(self).mining_cooldown_spec(),
    {
        if self.may_act(now) {
            self.set_animation_hit();
            self.set_cooldown(now + 400);
            true
        } else {
            false
        }
    }

    /// What a character does when the player places a block at time `now`
    /// on a cell that holds `target`: if it may act, the cell is empty and
    /// the selected slot holds blocks, it starts a hit animation, cannot act
    /// for 300 milliseconds and takes one of those blocks from its inventory.
    /// Returns the kind of block to place.
    pub fn on_block_place(&mut self, now: u64, target: u8) -> (r: Option<u8>)
        requires
            now + 300 <= u64::MAX,
            old(self).cooldown_spec() < now && target == 0 ==> old(self).active_spec() < old(self).inventory_spec().len(),
            old(self).cooldown_spec() < now && target == 0 && old(self).active_spec() < old(self).inventory_spec().len()
                && old(self).inventory_spec()[old(self).active_spec()] is Block ==> old(self).remove_fits(
                old(self).inventory_spec()[old(self).active_spec()]->Block_0.block,
            ),
        ensures
            ({
                let placing = old(self).cooldown_spec() < now && target == 0
                    && old(self).inventory_spec()[old(self).active_spec()] is Block;
                let b = old(self).inventory_spec()[old(self).active_spec()]->Block_0.block;
                &&& placing ==> {
                    &&& r == Some(b)
                    &&& final(self).cooldown_spec() == now + 300
                    &&& final(self).animation_spec() is Hit
                    &&& final(self).inventory_spec() == block_removed(old(self).inventory_spec(), b)
                }
                &&& !placing ==> r is None && *final(self) == *old(self)
            }),
            final(self).active_spec() == old(self).active_spec(),
            final(self).health_spec() == old(self).health_spec(),
            final(self).experience_spec() == old(self).experience_spec(),
    {
        if self.may_act(now) && target == 0 {
            if let Item::Block(bi) = self.item() {
                self.set_animation_hit();
                self.set_cooldown(now + 300);
                let b = bi.block;
                self.remove_block_from_inventory(b);
                return Some(b);
            }
        }
        None
    }

    /// What a character does when the player mines at time `now`: `target`
    /// is the block aimed at with its kind, if any. If it may mine and aims
    /// at a block, it mines that block, and if it may also act, it starts a
    /// hit animation and cannot act for 300 milliseconds. Otherwise it stops
    /// mining.
    pub fn on_block_mine(&mut self, now: u64, target: Option<(IVec3, u8)>)
        requires
            now + 300 <= u64::MAX,
        ensures
            old(self).mining_cooldown_spec() < now && target is Some ==> {
                &&& final(self).mining_spec() == target
                &&& old(self).cooldown_spec() < now ==> final(self).cooldown_spec() == now + 300
                    && final(self).animation_spec() is Hit
                &&& !(old(self).cooldown_spec() < now) ==> final(self).cooldown_spec() == old(self).cooldown_spec()
                    && final(self).animation_spec() == old(self).animation_spec()
            },
            !(old(self).mining_cooldown_spec() < now && target is Some) ==> {
                &&& final(self).mining_spec() is None
                &&& final(self).cooldown_spec() == old(self).cooldown_spec()
                &&& final(self).animation_spec() == old(self).animation_spec()
            },
            final(self).inventory_spec() == old(self).inventory_spec(),
            final(self).active_spec() == old(self).active_spec(),
            final(self).health_spec() == old(self).health_spec(),
            final(self).experience_spec() == old(self).experience_spec(),
            final(self).mining_cooldown_spec() == old(self).mining_cooldown_spec(),
    {
        if self.may_mine(now) {
            if let Some((pos, b)) = target {
                self.set_mining(Some((pos, b)));
                if self.may_act(now) {
                    self.set_animation_hit();
                    self.set_cooldown(now + 300);
                }
                return;
            }
        }
        self.set_mining(None);
    }

    /// What a character does when the player drops an item at time `now`:
    /// if it may act, it drops from the selected slot (see
    /// [`Character::drop_item`]); when something was dropped, it starts a hit
    /// animation and cannot act for 100 milliseconds. Returns what was
    /// dropped.
    pub fn on_drop_item(&mut self, now: u64) -> (r: Option<Item>)
        requires
            now + 100 <= u64::MAX,
            old(self).cooldown_spec() < now ==> old(self).active_spec() < old(self).inventory_spec().len(),
        ensures
            !(old(self).cooldown_spec() < now) ==> r is None && *final(self) == *old(self),
            old(self).cooldown_spec() < now ==> ({
                let it = old(self).inventory_spec()[old(self).active_spec()];
                let bi = it->Block_0;
                let a = old(self).active_spec();
                &&& it is Block && bi.amount > 1 ==> {
                    &&& r == Some(Item::Block(BlockItem { block: bi.block, amount: 1 }))
                    &&& final(self).inventory_spec() == old(self).inventory_spec().update(
                        a,
                        Item::Block(BlockItem { block: bi.block, amount: (bi.amount - 1) as u16 }),
                    )
                }
                &&& !(it is Block && bi.amount > 1) ==> {
                    &&& r == if it is Empty { None } else { Some(it) }
                    &&& final(self).inventory_spec() == old(self).inventory_spec().update(a, Item::Empty)
                }
                &&& r is Some ==> final(self).cooldown_spec() == now + 100 && final(self).animation_spec() is Hit
                &&& r is None ==> final(self).cooldown_spec() == old(self).cooldown_spec()
                    && final(self).animation_spec() == old(self).animation_spec()
            }),
            final(self).active_spec() == old(self).active_spec(),
            final(self).health_spec() == old(self).health_spec(),
            final(self).experience_spec() == old(self).experience_spec(),
    {
        if self.may_act(now) {
            let pos = self.inventory_active();
            let item = self.drop_item(pos);
            if item != Item::Empty {
                self.set_animation_hit();
                self.set_cooldown(now + 100);
                return Some(item);
            }
        }
        None
    }

    /// What a character does when it picks up a stack of blocks: it adds the
    /// blocks one by one (see [`Character::add_block_to_inventory`]).
    pub fn on_item_pickup(&mut self, bi: BlockItem)
        ensures
            final(self).inventory_spec() == blocks_added(old(self).inventory_spec(), bi.block, bi.amount as nat),
            final(self).active_spec() == old(self).active_spec(),
            final(self).inventory_spec().len() == old(self).inventory_spec().len(),
            final(self).same_but_inventory(old(self)),
    {
        let mut i: u16 = 0;
        while i < bi.amount
            invariant
                i <= bi.amount,
                self.inventory@ == blocks_added(old(self).inventory_spec(), bi.block, i as nat),
                self.inventory_active == old(self).inventory_active,
                self.inventory@.len() == old(self).inventory@.len(),
                self.same_but_inventory(old(self)),
            decreases bi.amount - i,
        {
            self.add_block_to_inventory(bi.block);
            i = i + 1;
        }
    }
}

} // verus!