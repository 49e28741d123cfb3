//! Items a character can hold: stacks of blocks and scripted items.
use vstd::prelude::*;
use std::collections::HashMap;

verus! {

broadcast use vstd::std_specs::hash::group_hash_axioms;

/// A stack of `amount` blocks of kind `block`.
#[derive(Clone, Copy, Debug, PartialEq, Eq, PartialOrd, Ord, Structural)]
pub struct BlockItem {
    pub block: u8,
    pub amount: u16,
}

impl Default for BlockItem {
    /// No block, none of it.
    fn default() -> (r: Self)
        ensures
            r == (BlockItem { block: 0, amount: 0 }),
    {
        BlockItem { block: 0, amount: 0 }
    }
}

impl BlockItem {
    pub fn new(block: u8, amount: u16) -> (r: Self)
        ensures
            r.block == block,
            r.amount == amount,
    {
        Self { block, amount }
    }
}

/// What an inventory slot holds; `Empty` for nothing.
#[non_exhaustive]
#[derive(Clone, Copy, Debug, PartialEq, Eq, PartialOrd, Ord, Structural)]
pub enum Item {
    Empty,
    Block(BlockItem),
    Scripted(u32),
}

impl Default for Item {
    /// An empty slot.
    fn default() -> (r: Self)
        ensures
            r == Item::Empty,
    {
        Item::Empty
    }
}

impl From<BlockItem> for Item {
    fn from(i: BlockItem) -> (r: Self) {
        Item::Block(i)
    }
}

impl vstd::std_specs::convert::FromSpecImpl<BlockItem> for Item {
    open spec fn obeys_from_spec() -> bool {
        true
    }

    open spec fn from_spec(i: BlockItem) -> Item {
        Item::Block(i)
    }
}

/// An item whose look and stack size a script defines.
#[derive(Debug)]
pub struct ScriptedItem {
    pub id: u32,
    pub icon: u16,
    pub mesh: u16,
    pub amount: u16,
    pub delete: bool,
}

impl Default for ScriptedItem {
    /// Item 0 with icon 0, mesh 0, amount 0, not deleted.
    fn default() -> (r: Self)
        ensures
            r == (ScriptedItem { id: 0, icon: 0, mesh: 0, amount: 0, delete: false }),
    {
        ScriptedItem { id: 0, icon: 0, mesh: 0, amount: 0, delete: false }
    }
}

impl Clone for ScriptedItem {
    fn clone(&self) -> (r: Self)
        ensures
            r == *self,
    {
        ScriptedItem {
            id: self.id,
            icon: self.icon,
            mesh: self.mesh,
            amount: self.amount,
            delete: self.delete,
        }
    }
}

impl From<&ScriptedItem> for Item {
    fn from(i: &ScriptedItem) -> (r: Self) {
        Item::Scripted(i.id)
    }
}

impl vstd::std_specs::convert::FromSpecImpl<&ScriptedItem> for Item {
    open spec fn obeys_from_spec() -> bool {
        true
    }

    open spec fn from_spec(i: &ScriptedItem) -> Item {
        Item::Scripted(i.id)
    }
}

impl ScriptedItem {
    /// A scripted item that is not marked for deletion.
    pub fn new(id: u32, icon: u16, mesh: u16, amount: u16) -> (r: Self)
        ensures
            r == (ScriptedItem { id, icon, mesh, amount, delete: false }),
    {
        Self { id, icon, mesh, amount, delete: false }
    }
}

/// The item with `id` in `m`, if there is one.
pub open spec fn item_of(m: Map<u32, ScriptedItem>, id: u32) -> Option<ScriptedItem> {
    if m.contains_key(id) {
        Some(m[id])
    } else {
        None
    }
}

/// The item with `id` in `m` with `f` applied, or `f` of a fresh item with
/// all numbers 0 when there is none.
pub open spec fn edited(m: Map<u32, ScriptedItem>, id: u32, f: spec_fn(ScriptedItem) -> ScriptedItem) -> Map<u32, ScriptedItem> {
    m.insert(
        id,
        f(if m.contains_key(id) {
            m[id]
        } else {
            ScriptedItem { id, icon: 0, mesh: 0, amount: 0, delete: false }
        }),
    )
}

/// `m` with the icon of `id` set.
pub open spec fn with_icon(m: Map<u32, ScriptedItem>, id: u32, icon: u16) -> Map<u32, ScriptedItem> {
    edited(m, id, |si: ScriptedItem| ScriptedItem { icon, ..si })
}

/// `m` with the mesh of `id` set.
pub open spec fn with_mesh(m: Map<u32, ScriptedItem>, id: u32, mesh: u16) -> Map<u32, ScriptedItem> {
    edited(m, id, |si: ScriptedItem| ScriptedItem { mesh, ..si })
}

/// `m` with the amount of `id` set.
pub open spec fn with_amount(m: Map<u32, ScriptedItem>, id: u32, amount: u16) -> Map<u32, ScriptedItem> {
    edited(m, id, |si: ScriptedItem| ScriptedItem { amount, ..si })
}

/// What a write leaves behind: the item written to exists and has the value
/// written, its other fields are kept (or 0 for a new item), and every
/// other item is as it was.
pub proof fn lemma_set_then_get(m: Map<u32, ScriptedItem>, id: u32, v: u16, other: u32)
    ensures
        item_of(with_icon(m, id, v), id) matches Some(si) && si.icon == v,
        item_of(with_mesh(m, id, v), id) matches Some(si) && si.mesh == v,
        item_of(with_amount(m, id, v), id) matches Some(si) && si.amount == v,
        item_of(with_icon(m, id, v), id)->0.mesh == (if m.contains_key(id) { m[id].mesh } else { 0 }),
        item_of(with_icon(m, id, v), id)->0.amount == (if m.contains_key(id) { m[id].amount } else { 0 }),
        item_of(with_mesh(m, id, v), id)->0.icon == (if m.contains_key(id) { m[id].icon } else { 0 }),
        item_of(with_mesh(m, id, v), id)->0.amount == (if m.contains_key(id) { m[id].amount } else { 0 }),
        item_of(with_amount(m, id, v), id)->0.icon == (if m.contains_key(id) { m[id].icon } else { 0 }),
        item_of(with_amount(m, id, v), id)->0.mesh == (if m.contains_key(id) { m[id].mesh } else { 0 }),
        other != id ==> item_of(with_icon(m, id, v), other) == item_of(m, other),
        other != id ==> item_of(with_mesh(m, id, v), other) == item_of(m, other),
        other != id ==> item_of(with_amount(m, id, v), other) == item_of(m, other),
{
}

/// The scripted items, by id.
#[derive(Debug)]
pub struct ScriptedItemList {
    pub items: HashMap<u32, ScriptedItem>,
}

impl Default for ScriptedItemList {
    /// No scripted items.
    fn default() -> (r: Self)
        ensures
            r.items@ == Map::<u32, ScriptedItem>::empty(),
    {
        ScriptedItemList::new()
    }
}

impl ScriptedItemList {
    /// No scripted items.
    pub fn new() -> (r: ScriptedItemList)
        ensures
            r.items@ == Map::<u32, ScriptedItem>::empty(),
    {
        ScriptedItemList { items: HashMap::new() }
    }

    /// The item with `id`, if there is one.
    pub fn get(&self, id: u32) -> (r: Option<ScriptedItem>)
        ensures
            r == item_of(self.items@, id),
    {
        match self.items.get(&id) {
            Some(v) => Some(v.clone()),
            None => None,
        }
    }

    /// The icon of the item with `id`, if there is one.
    pub fn get_icon(&self, id: u32) -> (r: Option<u16>)
        ensures
            r == match item_of(self.items@, id) {
                Some(si) => Some(si.icon),
                None => None,
            },
    {
        match self.items.get(&id) {
            Some(si) => Some(si.icon),
            None => None,
        }
    }

    /// The mesh of the item with `id`, if there is one.
    pub fn get_mesh(&self, id: u32) -> (r: Option<u16>)
        ensures
            r == match item_of(self.items@, id) {
                Some(si) => Some(si.mesh),
                None => None,
            },
    {
        match self.items.get(&id) {
            Some(si) => Some(si.mesh),
            None => None,
        }
    }

    /// The stack size of the item with `id`, if there is one.
    pub fn get_amount(&self, id: u32) -> (r: Option<u16>)
        ensures
            r == match item_of(self.items@, id) {
                Some(si) => Some(si.amount),
                None => None,
            },
    {
        match self.items.get(&id) {
            Some(si) => Some(si.amount),
            None => None,
        }
    }

    /// Sets the icon of the item with `id`; an unknown id gets a new item
    /// with that icon, mesh 0 and amount 0.
    pub fn set_icon(&mut self, id: u32, icon: u16)
        ensures
            final(self).items@ == with_icon(old(self).items@, id, icon),
    {
        let si = match self.items.get(&id) {
            Some(si) => ScriptedItem { icon, ..si.clone() },
            None => ScriptedItem::new(id, icon, 0, 0),
        };
        self.items.insert(id, si);
    }

    /// Sets the mesh of the item with `id`; an unknown id gets a new item
    /// with icon 0, that mesh and amount 0.
    pub fn set_mesh(&mut self, id: u32, mesh: u16)
        ensures
            final(self).items@ == with_mesh(old(self).items@, id, mesh),
    {
        let si = match self.items.get(&id) {
            Some(si) => ScriptedItem { mesh, ..si.clone() },
            None => ScriptedItem::new(id, 0, mesh, 0),
        };
        self.items.insert(id, si);
    }

    /// Sets the stack size of the item with `id`; an unknown id gets a new
    /// item with icon 0, mesh 0 and that amount.
    pub fn set_amount(&mut self, id: u32, amount: u16)
        ensures
            final(self).items@ == with_amount(old(self).items@, id, amount),
    {
        let si = match self.items.get(&id) {
            Some(si) => ScriptedItem { amount, ..si.clone() },
            None => ScriptedItem::new(id, 0, 0, amount),
        };
        self.items.insert(id, si);
    }

    /// Marks the item with `id` for deletion; an unknown id changes nothing.
    pub fn delete(&mut self, id: u32)
        ensures
            final(self).items@ == if old(self).items@.contains_key(id) {
                old(self).items@.insert(id, ScriptedItem { delete: true, ..old(self).items@[id] })
            } else {
                old(self).items@
            },
    {
        let si = match self.items.get(&id) {
            Some(si) => Some(ScriptedItem { delete: true, ..si.clone() }),
            None => None,
        };
        if let Some(si) = si {
            self.items.insert(id, si);
        }
    }
}

} // verus!
