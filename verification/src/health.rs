//! Hit points.
use vstd::prelude::*;
use vstd::std_specs::ops::{AddSpec, SubSpec};

verus! {

/// Hit points `hp` out of `max_hp`.
#[derive(Clone, Copy, Debug)]
pub struct Health {
    hp: i16,
    max_hp: i16,
}

/// `v` clamped to `lo..=hi`.
pub open spec fn clamped(v: int, lo: int, hi: int) -> int {
    if v < lo {
        lo
    } else if v > hi {
        hi
    } else {
        v
    }
}

/// Whether `hp + delta` fits an `i16` and the maximum is not negative, so
/// that the sum can be clamped to `0..=max_hp`.
pub open spec fn can_change(h: Health, delta: int) -> bool {
    &&& i16::MIN <= h.hp() + delta <= i16::MAX
    &&& h.max_hp() >= 0
}

/// `hp + delta` clamped to `0..=max_hp`, computed without overflow.
fn clamp_hp(hp: i16, delta: i16, max_hp: i16) -> (r: i16)
    requires
        max_hp >= 0,
    ensures
        r as int == clamped(hp + delta, 0, max_hp as int),
{
    let v = hp as i32 + delta as i32;
    if v < 0 {
        0
    } else if v > max_hp as i32 {
        max_hp
    } else {
        v as i16
    }
}

impl Default for Health {
    fn default() -> (r: Self)
        ensures
            r.hp() == 12,
            r.max_hp() == 12,
    {
        Self { hp: 12, max_hp: 12 }
    }
}

impl Health {
    pub closed spec fn hp(self) -> int {
        self.hp as int
    }

    pub closed spec fn max_hp(self) -> int {
        self.max_hp as int
    }

    /// Full health of `max_hp` hit points.
    pub fn new(max_hp: i16) -> (r: Self)
        ensures
            r.hp() == max_hp,
            r.max_hp() == max_hp,
    {
        Self { max_hp, hp: max_hp }
    }

    pub fn health(&self) -> (r: i16)
        ensures
            r == self.hp(),
    {
        self.hp
    }

    pub fn max_health(&self) -> (r: i16)
        ensures
            r == self.max_hp(),
    {
        self.max_hp
    }

    pub fn is_dead(self) -> (r: bool)
        ensures
            r == (self.hp() <= 0),
    {
        self.hp <= 0
    }

    pub fn is_alive(self) -> (r: bool)
        ensures
            r == (self.hp() > 0),
    {
        !self.is_dead()
    }

    /// Takes `amount` hit points, clamping the result to `0..=max_hp`.
    pub fn damage(&mut self, amount: i16)
        requires
            can_change(*old(self), -amount),
        ensures
            final(self).hp() == clamped(old(self).hp() - amount, 0, old(self).max_hp()),
            final(self).max_hp() == old(self).max_hp(),
    {
        let v = self.hp - amount;
        self.hp = clamp_hp(v, 0, self.max_hp);
    }

    /// Adds `amount` hit points, clamping the result to `0..=max_hp`.
    pub fn heal(&mut self, amount: i16)
        requires
            can_change(*old(self), amount as int),
        ensures
            final(self).hp() == clamped(old(self).hp() + amount, 0, old(self).max_hp()),
            final(self).max_hp() == old(self).max_hp(),
    {
        let v = self.hp + amount;
        self.hp = clamp_hp(v, 0, self.max_hp);
    }

    /// Sets the maximum, lowering the hit points to it if they exceed it.
    pub fn set_max_health(&mut self, amount: i16)
        ensures
            final(self).max_hp() == amount,
            final(self).hp() == vstd::math::min(old(self).hp(), amount as int),
    {
        self.max_hp = amount;
        self.hp = if self.hp < amount {
            self.hp
        } else {
            amount
        };
    }

    pub fn set_full_health(&mut self)
        ensures
            final(self).hp() == old(self).max_hp(),
            final(self).max_hp() == old(self).max_hp(),
    {
        self.hp = self.max_hp;
    }
}

impl core::ops::Add<i16> for Health {
    type Output = Health;

    fn add(self, rhs: i16) -> (r: Health) {
        Self { hp: clamp_hp(self.hp, rhs, self.max_hp), max_hp: self.max_hp }
    }
}

impl vstd::std_specs::ops::AddSpecImpl<i16> for Health {
    open spec fn obeys_add_spec() -> bool {
        true
    }

    open spec fn add_req(self, rhs: i16) -> bool {
        can_change(self, rhs as int)
    }

    closed spec fn add_spec(self, rhs: i16) -> Health {
        Health { hp: clamped(self.hp() + rhs, 0, self.max_hp()) as i16, max_hp: self.max_hp }
    }
}

impl core::ops::Sub<i16> for Health {
    type Output = Health;

    fn sub(self, rhs: i16) -> (r: Health) {
        self + (-rhs)
    }
}

impl vstd::std_specs::ops::SubSpecImpl<i16> for Health {
    open spec fn obeys_sub_spec() -> bool {
        true
    }

    open spec fn sub_req(self, rhs: i16) -> bool {
        rhs != i16::MIN && can_change(self, -rhs)
    }

    closed spec fn sub_spec(self, rhs: i16) -> Health {
        Health { hp: clamped(self.hp() - rhs, 0, self.max_hp()) as i16, max_hp: self.max_hp }
    }
}

/// `v` clamped to `0..=max`; for a negative maximum, `max` when `v` exceeds it.
fn clamp_total(v: i32, max: i16) -> (r: i16)
    ensures
        r as int == if v > max {
            max as int
        } else if v < 0 {
            0
        } else {
            v as int
        },
{
    if v > max as i32 {
        max
    } else if v < 0 {
        0
    } else {
        v as i16
    }
}

impl core::ops::AddAssign<i16> for Health {
    /// Adds `rhs` hit points, clamping to `0..=max_hp`. The sum is computed
    /// without overflow.
    fn add_assign(&mut self, rhs: i16)
        ensures
            final(self).max_hp() == old(self).max_hp(),
            old(self).max_hp() >= 0 ==> final(self).hp() == clamped(old(self).hp() + rhs, 0, old(self).max_hp()),
    {
        self.hp = clamp_total(self.hp as i32 + rhs as i32, self.max_hp);
    }
}

impl core::ops::SubAssign<i16> for Health {
    /// Takes `rhs` hit points, clamping to `0..=max_hp`. The difference is
    /// computed without overflow.
    fn sub_assign(&mut self, rhs: i16)
        ensures
            final(self).max_hp() == old(self).max_hp(),
            old(self).max_hp() >= 0 ==> final(self).hp() == clamped(old(self).hp() - rhs, 0, old(self).max_hp()),
    {
        self.hp = clamp_total(self.hp as i32 - rhs as i32, self.max_hp);
    }
}

/// Adding to health clamps the hit points to `0..=max_hp` and keeps the
/// maximum.
pub proof fn lemma_add_spec(h: Health, rhs: i16)
    requires
        h.max_hp() >= 0,
    ensures
        h.add_spec(rhs).hp() == clamped(h.hp() + rhs, 0, h.max_hp()),
        h.add_spec(rhs).max_hp() == h.max_hp(),
{
}

/// Subtracting from health clamps the hit points to `0..=max_hp` and keeps
/// the maximum.
pub proof fn lemma_sub_spec(h: Health, rhs: i16)
    requires
        h.max_hp() >= 0,
    ensures
        h.sub_spec(rhs).hp() == clamped(h.hp() - rhs, 0, h.max_hp()),
        h.sub_spec(rhs).max_hp() == h.max_hp(),
{
}

} // verus!
