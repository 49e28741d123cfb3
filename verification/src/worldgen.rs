//! The search for the outlines that a chunk of the world is generated
//! from. Outline generators, registered by name, turn an outline into the
//! finer outlines it consists of; the search resolves outlines level by
//! level, starting from the root outline, and keeps those that touch the
//! area being generated. The generators themselves are closures that the
//! caller holds and runs.
use vstd::prelude::*;
use crate::pos::IVec3;
use crate::worldbox::WorldBox;

verus! {

/// A named region of the world; `name` is the interned name of the
/// generator that resolves it.
#[derive(Clone, Copy, Debug, PartialEq, Eq, Structural)]
pub struct WorldGenOutline {
    pub position: WorldBox,
    pub name: u32,
    pub variant: u8,
    pub level: u8,
}

/// The outlines of `s` that touch `area`, in order.
pub open spec fn touching(s: Seq<WorldGenOutline>, area: WorldBox) -> Seq<WorldGenOutline>
    decreases s.len(),
{
    if s.len() == 0 {
        s
    } else if s.last().position.spec_intersects(area) {
        touching(s.drop_last(), area).push(s.last())
    } else {
        touching(s.drop_last(), area)
    }
}

/// The box of the chunk at chunk position `pos`: from its first block to
/// one past its last on every axis.
pub open spec fn chunk_box_spec(pos: IVec3) -> WorldBox {
    WorldBox {
        a: IVec3 { x: (pos.x * 32) as i32, y: (pos.y * 32) as i32, z: (pos.z * 32) as i32 },
        b: IVec3 { x: (pos.x * 32 + 32) as i32, y: (pos.y * 32 + 32) as i32, z: (pos.z * 32 + 32) as i32 },
    }
}

/// The box of the chunk at chunk position `pos`.
pub fn chunk_box(pos: IVec3) -> (r: WorldBox)
    requires
        i32::MIN <= pos.x * 32 && pos.x * 32 + 32 <= i32::MAX,
        i32::MIN <= pos.y * 32 && pos.y * 32 + 32 <= i32::MAX,
        i32::MIN <= pos.z * 32 && pos.z * 32 + 32 <= i32::MAX,
    ensures
        r == chunk_box_spec(pos),
{
    let a = IVec3::new(pos.x * 32, pos.y * 32, pos.z * 32);
    let b = IVec3::new(a.x + 32, a.y + 32, a.z + 32);
    WorldBox::new(a, b)
}

/// A search for the outlines of `area`: the outlines of the level to
/// resolve next, and those kept so far.
pub struct OutlineSearch {
    area: WorldBox,
    queue: Vec<WorldGenOutline>,
    found: Vec<WorldGenOutline>,
}

impl OutlineSearch {
    /// The area searched.
    pub closed spec fn area_spec(&self) -> WorldBox {
        self.area
    }

    /// The outlines to resolve next.
    pub closed spec fn pending_spec(&self) -> Seq<WorldGenOutline> {
        self.queue@
    }

    /// The outlines kept so far, level by level.
    pub closed spec fn found_spec(&self) -> Seq<WorldGenOutline> {
        self.found@
    }

    /// A search of `area` that starts from the root outline: the whole area,
    /// generated by `root`, variant 0, level 0.
    pub fn new(area: WorldBox, root: u32) -> (r: Self)
        ensures
            r.area_spec() == area,
            r.pending_spec() == seq![WorldGenOutline { position: area, name: root, variant: 0, level: 0 }],
            r.found_spec().len() == 0,
    {
        let mut queue: Vec<WorldGenOutline> = Vec::new();
        queue.push(WorldGenOutline { position: area, name: root, variant: 0, level: 0 });
        Self { area, queue, found: Vec::new() }
    }

    /// The area searched.
    pub fn area(&self) -> (r: WorldBox)
        ensures
            r == self.area_spec(),
    {
        self.area
    }

    /// The outlines to resolve next.
    pub fn pending(&self) -> (r: &Vec<WorldGenOutline>)
        ensures
            r@ == self.pending_spec(),
    {
        &self.queue
    }

    /// Finishes a level: keeps its outlines that touch the area, and makes
    /// `children` (what resolving them gave) the next level. Gives `true`
    /// when there is no next level: the search is done.
    pub fn advance(&mut self, children: Vec<WorldGenOutline>) -> (done: bool)
        ensures
            final(self).found_spec() == old(self).found_spec() + touching(old(self).pending_spec(), old(self).area_spec()),
            final(self).pending_spec() == children@,
            final(self).area_spec() == old(self).area_spec(),
            done == (children@.len() == 0),
    {
        let ghost f0 = self.found@;
        let mut i: usize = 0;
        while i < self.queue.len()
            invariant
                i <= self.queue@.len(),
                self.queue@ == old(self).pending_spec(),
                self.area == old(self).area_spec(),
                self.found@ == f0 + touching(self.queue@.take(i as int), self.area),
                f0 == old(self).found_spec(),
            decreases self.queue@.len() - i,
        {
            let o = self.queue[i];
            proof {
                assert(self.queue@.take(i + 1).drop_last() =~= self.queue@.take(i as int));
            }
            if o.position.intersects(&self.area) {
                self.found.push(o);
            }
            i = i + 1;
        }
        proof {
            assert(self.queue@.take(i as int) =~= self.queue@);
        }
        let done = children.len() == 0;
        self.queue = children;
        done
    }

    /// The outlines kept, level by level.
    pub fn outlines(&self) -> (r: &Vec<WorldGenOutline>)
        ensures
            r@ == self.found_spec(),
    {
        &self.found
    }
}

} // verus!
