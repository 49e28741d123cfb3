//! A short log of messages for the player, each with the time it was added.
use vstd::prelude::*;
use std::collections::VecDeque;
use crate::time::{instant_now, Instant};

verus! {

/// The last messages, oldest first, each with the time it was added; at
/// most `max_len` of them are kept when a message is added.
#[derive(Clone, Debug)]
pub struct GameLog {
    entries: VecDeque<(String, Instant)>,
    max_len: u8,
}

/// How many of the oldest messages a push drops from a log of `len` messages
/// that keeps at most `max_len`: all that exceed `max_len` once the new one
/// is added.
pub open spec fn dropped_on_push(len: int, max_len: int) -> int {
    if len + 1 > max_len {
        len + 1 - max_len
    } else {
        0
    }
}

impl Default for GameLog {
    fn default() -> (r: Self)
        ensures
            r.entries_spec().len() == 0,
            r.max_len_spec() == 10,
    {
        Self { entries: VecDeque::new(), max_len: 10 }
    }
}

impl GameLog {
    /// The messages with their times, oldest first.
    pub closed spec fn entries_spec(&self) -> Seq<(String, Instant)> {
        self.entries@
    }

    pub closed spec fn max_len_spec(&self) -> nat {
        self.max_len as nat
    }

    /// An empty log that keeps 10 messages.
    pub fn new() -> (r: Self)
        ensures
            r.entries_spec().len() == 0,
            r.max_len_spec() == 10,
    {
        Self::default()
    }

    /// Adds `s`, stamped with the current time, after the other messages, then
    /// drops the oldest messages until at most `max_len` are left.
    pub fn push(&mut self, s: String)
        ensures
            final(self).max_len_spec() == old(self).max_len_spec(),
            final(self).entries_spec().len() == vstd::math::min(
                old(self).entries_spec().len() + 1int,
                old(self).max_len_spec() as int,
            ),
            exists|t: Instant|
                final(self).entries_spec() == old(self).entries_spec().push((s, t)).skip(
                    dropped_on_push(old(self).entries_spec().len() as int, old(self).max_len_spec() as int),
                ),
    {
        let ghost e0 = self.entries@;
        let t = instant_now();
        self.entries.push_back((s, t));
        let ghost full = e0.push((s, t));
        let ghost mut dropped: int = 0;
        assert(self.entries@ == full.skip(0));
        while self.entries.len() > self.max_len as usize
            invariant
                full == e0.push((s, t)),
                e0 == old(self).entries@,
                self.max_len == old(self).max_len,
                0 <= dropped <= full.len(),
                self.entries@ == full.skip(dropped),
                dropped > 0 ==> full.len() - dropped >= self.max_len,
                dropped == 0 || full.len() - dropped == self.max_len || full.len() - dropped
                    > self.max_len,
            decreases self.entries@.len(),
        {
            self.entries.pop_front();
            proof {
                dropped = dropped + 1;
                assert(full.skip(dropped - 1).drop_first() =~= full.skip(dropped));
            }
        }
        assert(self.entries@ =~= full.skip(dropped_on_push(e0.len() as int, self.max_len as int)));
        assert(self.entries_spec() == old(self).entries_spec().push((s, t)).skip(
            dropped_on_push(old(self).entries_spec().len() as int, old(self).max_len_spec() as int),
        ));
    }

    pub fn set_max_len(&mut self, l: u8)
        ensures
            final(self).max_len_spec() == l,
            final(self).entries_spec() == old(self).entries_spec(),
    {
        self.max_len = l;
    }

    pub fn max_len(&self) -> (r: u8)
        ensures
            r == self.max_len_spec(),
    {
        self.max_len
    }

    pub fn len(&self) -> (r: usize)
        ensures
            r == self.entries_spec().len(),
    {
        self.entries.len()
    }

    pub fn is_empty(&self) -> (r: bool)
        ensures
            r == (self.entries_spec().len() == 0),
    {
        self.len() == 0
    }

    pub fn entries(&self) -> (r: &VecDeque<(String, Instant)>)
        ensures
            r@ == self.entries_spec(),
    {
        &self.entries
    }

    pub fn entries_mut(&mut self) -> (r: &mut VecDeque<(String, Instant)>)
        ensures
            r@ == old(self).entries_spec(),
            final(self).entries_spec() == final(r)@,
            final(self).max_len_spec() == old(self).max_len_spec(),
    {
        &mut self.entries
    }
}

} // verus!
