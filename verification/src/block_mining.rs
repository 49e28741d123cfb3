//! The blocks being mined: how much mining damage each has taken.
use vstd::prelude::*;
use crate::pos::IVec3;

verus! {

/// Mining progress on one block: the damage dealt so far and the health of
/// the block, the damage it takes to break it.
#[derive(Clone, Copy, Debug, PartialEq, Eq, Structural)]
pub struct BlockMining {
    pub _block: u8,
    pub damage: u16,
    pub block_health: u16,
}

impl Default for BlockMining {
    /// No block, no damage, no health.
    fn default() -> (r: Self)
        ensures
            r == (BlockMining { _block: 0, damage: 0, block_health: 0 }),
    {
        BlockMining { _block: 0, damage: 0, block_health: 0 }
    }
}

/// The mining progress of each block being mined, at most one entry per
/// position. Progress fades: each tick takes one point of damage away.
#[derive(Debug)]
pub struct BlockMiningMap {
    map: Vec<(IVec3, BlockMining)>,
}

/// The entries of `s` whose damage stays above 0 when one point is taken
/// away, with that point taken away, in their order.
pub open spec fn ticked(s: Seq<(IVec3, BlockMining)>) -> Seq<(IVec3, BlockMining)>
    decreases s.len(),
{
    if s.len() == 0 {
        s
    } else {
        let rest = ticked(s.drop_last());
        let e = s.last();
        if e.1.damage > 1 {
            rest.push((e.0, BlockMining { damage: (e.1.damage - 1) as u16, ..e.1 }))
        } else {
            rest
        }
    }
}

/// No position occurs twice in `s`, and every entry has taken damage.
pub open spec fn entries_wf(s: Seq<(IVec3, BlockMining)>) -> bool {
    &&& forall|i: int, j: int| 0 <= i < j < s.len() ==> #[trigger] s[i].0 != #[trigger] s[j].0
    &&& forall|i: int| 0 <= i < s.len() ==> #[trigger] s[i].1.damage >= 1
}

impl Default for BlockMiningMap {
    /// No block is being mined.
    fn default() -> (r: Self)
        ensures
            r.entries().len() == 0,
    {
        BlockMiningMap::new()
    }
}

impl BlockMiningMap {
    #[verifier::type_invariant]
    spec fn inv(self) -> bool {
        entries_wf(self.map@)
    }

    /// The blocks being mined with their progress.
    pub closed spec fn entries(self) -> Seq<(IVec3, BlockMining)> {
        self.map@
    }

    /// Whether `pos` is being mined.
    pub open spec fn mined(self, pos: IVec3) -> bool {
        exists|i: int| 0 <= i < self.entries().len() && #[trigger] self.entries()[i].0 == pos
    }

    /// Mining `dmg` more into `pos` does not overflow its damage.
    pub open spec fn mine_fits(self, pos: IVec3, dmg: u16) -> bool {
        forall|i: int|
            0 <= i < self.entries().len() && #[trigger] self.entries()[i].0 == pos
                ==> self.entries()[i].1.damage + dmg <= u16::MAX
    }

    /// No block is being mined.
    pub fn new() -> (r: Self)
        ensures
            r.entries().len() == 0,
    {
        BlockMiningMap { map: Vec::new() }
    }

    /// Takes one point of damage from every block being mined and forgets the
    /// blocks whose damage reaches 0.
    pub fn tick(&mut self)
        ensures
            final(self).entries() == ticked(old(self).entries()),
    {
        proof {
            use_type_invariant(&*self);
        }
        let ghost s = self.map@;
        let mut out: Vec<(IVec3, BlockMining)> = Vec::new();
        let mut i: usize = 0;
        while i < self.map.len()
            invariant
                s == self.map@,
                entries_wf(s),
                i <= s.len(),
                out@ == ticked(s.take(i as int)),
                entries_wf(out@),
                forall|k: int|
                    0 <= k < out@.len() ==> exists|j: int| 0 <= j < i && #[trigger] out@[k].0 == s[j].0,
            decreases s.len() - i,
        {
            assert(s.take(i + 1).drop_last() =~= s.take(i as int));
            let (pos, m) = self.map[i];
            if m.damage > 1 {
                proof {
                    assert forall|k: int| 0 <= k < out@.len() implies #[trigger] out@[k].0 != pos by {
                        let j = choose|j: int| 0 <= j < i && #[trigger] out@[k].0 == s[j].0;
                        assert(s[j].0 != s[i as int].0);
                    }
                }
                out.push((pos, BlockMining { damage: m.damage - 1, ..m }));
            }
            i = i + 1;
        }
        assert(s.take(s.len() as int) =~= s);
        self.map = out;
    }

    /// Deals `dmg` mining damage to the block at `pos`. A block that is not
    /// being mined yet starts with damage 2 and the given `block` and
    /// `block_health`, and the result is `false`. Otherwise its damage grows
    /// by `dmg`; once it exceeds the block's health, the damage is set back
    /// to 1 and the result is `true`: the block breaks.
    pub fn mine(&mut self, pos: IVec3, block: u8, dmg: u16, block_health: u16) -> (r: bool)
        requires
            old(self).mine_fits(pos, dmg),
        ensures
            !old(self).mined(pos) ==> {
                &&& !r
                &&& final(self).entries() == old(self).entries().push(
                    (pos, BlockMining { _block: block, damage: 2, block_health }),
                )
            },
            forall|i: int|
                0 <= i < old(self).entries().len() && #[trigger] old(self).entries()[i].0 == pos
                    ==> {
                    let m = old(self).entries()[i].1;
                    let d = m.damage + dmg;
                    &&& r == (d > m.block_health)
                    &&& final(self).entries() == old(self).entries().update(
                        i,
                        (pos, BlockMining { damage: if d > m.block_health { 1 } else { d as u16 }, ..m }),
                    )
                },
    {
        proof {
            use_type_invariant(&*self);
        }
        let mut v: Vec<(IVec3, BlockMining)> = Vec::new();
        std::mem::swap(&mut v, &mut self.map);
        let ghost s = v@;
        let mut i: usize = 0;
        let mut found = false;
        let mut broke = false;
        while i < v.len() && !found
            invariant
                s == old(self).entries(),
                entries_wf(s),
                forall|k: int|
                    0 <= k < s.len() && #[trigger] s[k].0 == pos ==> s[k].1.damage + dmg <= u16::MAX,
                i <= s.len(),
                !found ==> v@ == s && !broke,
                !found ==> forall|k: int| 0 <= k < i ==> #[trigger] s[k].0 != pos,
                found ==> i < s.len() && s[i as int].0 == pos && {
                    let m = s[i as int].1;
                    let d = m.damage + dmg;
                    &&& broke == (d > m.block_health)
                    &&& v@ == s.update(
                        i as int,
                        (pos, BlockMining { damage: if d > m.block_health { 1 } else { d as u16 }, ..m }),
                    )
                },
            decreases s.len() - i + if found { 0int } else { 1int },
        {
            if v[i].0 == pos {
                let (p, m) = v[i];
                assert(s[i as int].0 == pos);
                let d = m.damage + dmg;
                if d > m.block_health {
                    v.set(i, (p, BlockMining { damage: 1, ..m }));
                    broke = true;
                } else {
                    v.set(i, (p, BlockMining { damage: d, ..m }));
                }
                found = true;
            } else {
                i = i + 1;
            }
        }
        if found {
            assert(old(self).entries()[i as int].0 == pos);
        }
        if !found {
            v.push((pos, BlockMining { damage: 2, _block: block, block_health }));
        }
        assert(entries_wf(v@)) by {
            if found {
                assert forall|a: int, b: int| 0 <= a < b < v@.len() implies #[trigger] v@[a].0
                    != #[trigger] v@[b].0 by {
                    assert(v@[a].0 == s[a].0 && v@[b].0 == s[b].0);
                }
            } else {
                assert forall|a: int, b: int| 0 <= a < b < v@.len() implies #[trigger] v@[a].0
                    != #[trigger] v@[b].0 by {
                    if b == s.len() {
                        assert(s[a].0 != pos);
                    }
                }
            }
        }
        self.map = v;
        broke
    }

    /// The blocks being mined with their progress.
    pub fn iter(&self) -> (r: &Vec<(IVec3, BlockMining)>)
        ensures
            r@ == self.entries(),
    {
        &self.map
    }
}

} // verus!
