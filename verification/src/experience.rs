//! Experience points and levels.
use vstd::prelude::*;

verus! {

/// Experience points `xp` collected towards the next level, the points
/// `xp_total` spent on earlier levels, the points `next_level` that the next
/// level costs, and the current `level`.
#[derive(Clone, Copy, Debug)]
pub struct Experience {
    xp: u64,
    xp_total: u64,
    next_level: u64,
    level: u8,
}

impl Default for Experience {
    fn default() -> (r: Self)
        ensures
            r.xp_spec() == 0,
            r.xp_total_spec() == 0,
            r.next_level_spec() == 32,
            r.level_spec() == 1,
    {
        Self { xp: 0, xp_total: 0, next_level: 32, level: 1 }
    }
}

impl Experience {
    pub closed spec fn xp_spec(self) -> int {
        self.xp as int
    }

    pub closed spec fn xp_total_spec(self) -> int {
        self.xp_total as int
    }

    pub closed spec fn next_level_spec(self) -> int {
        self.next_level as int
    }

    pub closed spec fn level_spec(self) -> int {
        self.level as int
    }

    /// All experience ever gained: what was spent on levels plus what is
    /// collected towards the next one.
    pub open spec fn score(self) -> int {
        self.xp_total_spec() + self.xp_spec()
    }

    /// Whether a level up, if one is due, fits the integer types: the spent
    /// points, the tripled cost and the level do not overflow.
    pub open spec fn level_up_fits(self) -> bool {
        self.xp_spec() >= self.next_level_spec() ==> {
            &&& self.xp_total_spec() + self.next_level_spec() <= u64::MAX
            &&& self.next_level_spec() * 3 <= u64::MAX
            &&& self.level_spec() < 255
        }
    }

    /// The points spent on earlier levels.
    pub fn xp_total(&self) -> (r: u64)
        ensures
            r == self.xp_total_spec(),
    {
        self.xp_total
    }

    /// Level 1, no points, 32 points to the next level.
    pub fn new() -> (r: Self)
        ensures
            r.xp_spec() == 0,
            r.xp_total_spec() == 0,
            r.next_level_spec() == 32,
            r.level_spec() == 1,
    {
        Self::default()
    }

    pub fn xp(&self) -> (r: u64)
        ensures
            r == self.xp_spec(),
    {
        self.xp
    }

    pub fn next_level(&self) -> (r: u64)
        ensures
            r == self.next_level_spec(),
    {
        self.next_level
    }

    pub fn level(&self) -> (r: u8)
        ensures
            r == self.level_spec(),
    {
        self.level
    }

    /// Adds `xp` points towards the next level.
    pub fn gain(&mut self, xp: u64)
        requires
            old(self).xp_spec() + xp <= u64::MAX,
        ensures
            final(self).xp_spec() == old(self).xp_spec() + xp,
            final(self).xp_total_spec() == old(self).xp_total_spec(),
            final(self).next_level_spec() == old(self).next_level_spec(),
            final(self).level_spec() == old(self).level_spec(),
    {
        self.xp = self.xp + xp;
    }

    /// Goes up one level if enough points are collected: the cost of the
    /// level moves from `xp` to `xp_total`, the next level costs three times
    /// as much, and the result is `true`. Otherwise nothing changes and the
    /// result is `false`. Either way the score stays the same.
    pub fn level_up(&mut self) -> (r: bool)
        requires
            old(self).level_up_fits(),
        ensures
            r == (old(self).xp_spec() >= old(self).next_level_spec()),
            r ==> {
                &&& final(self).xp_spec() == old(self).xp_spec() - old(self).next_level_spec()
                &&& final(self).xp_total_spec() == old(self).xp_total_spec() + old(self).next_level_spec()
                &&& final(self).next_level_spec() == old(self).next_level_spec() * 3
                &&& final(self).level_spec() == old(self).level_spec() + 1
            },
            !r ==> *final(self) == *old(self),
            final(self).score() == old(self).score(),
    {
        if self.xp >= self.next_level {
            self.xp_total = self.xp_total + self.next_level;
            self.xp = self.xp - self.next_level;
            self.next_level = self.next_level * 3;
            self.level = self.level + 1;
            true
        } else {
            false
        }
    }

    /// Back to level 1 with no points and 32 points to the next level.
    pub fn reset(&mut self)
        ensures
            final(self).xp_spec() == 0,
            final(self).xp_total_spec() == 0,
            final(self).next_level_spec() == 32,
            final(self).level_spec() == 1,
    {
        self.xp = 0;
        self.xp_total = 0;
        self.next_level = 32;
        self.level = 1;
    }

    pub fn set_next_level(&mut self, next_level: u64)
        ensures
            final(self).next_level_spec() == next_level,
            final(self).xp_spec() == old(self).xp_spec(),
            final(self).xp_total_spec() == old(self).xp_total_spec(),
            final(self).level_spec() == old(self).level_spec(),
    {
        self.next_level = next_level;
    }
}

} // verus!
