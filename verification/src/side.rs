//! The six sides of a block.
use vstd::prelude::*;

verus! {

/// A side of a block; its number is the order below, starting at 0.
#[derive(Clone, Copy, Debug, PartialEq, Eq, Hash, Structural)]
pub enum Side {
    Front,
    Back,
    Top,
    Bottom,
    Left,
    Right,
}

impl Default for Side {
    /// The front side.
    fn default() -> (r: Self)
        ensures
            r == Side::Front,
    {
        Side::Front
    }
}

impl Side {
    /// The number of a side: Front 0, Back 1, Top 2, Bottom 3, Left 4, Right 5.
    pub open spec fn index(self) -> nat {
        match self {
            Side::Front => 0,
            Side::Back => 1,
            Side::Top => 2,
            Side::Bottom => 3,
            Side::Left => 4,
            Side::Right => 5,
        }
    }
}

impl From<Side> for u8 {
    fn from(s: Side) -> (r: u8) {
        match s {
            Side::Front => 0,
            Side::Back => 1,
            Side::Top => 2,
            Side::Bottom => 3,
            Side::Left => 4,
            Side::Right => 5,
        }
    }
}

impl vstd::std_specs::convert::FromSpecImpl<Side> for u8 {
    open spec fn obeys_from_spec() -> bool {
        true
    }

    open spec fn from_spec(s: Side) -> u8 {
        s.index() as u8
    }
}

impl From<Side> for usize {
    fn from(s: Side) -> (r: usize) {
        match s {
            Side::Front => 0,
            Side::Back => 1,
            Side::Top => 2,
            Side::Bottom => 3,
            Side::Left => 4,
            Side::Right => 5,
        }
    }
}

impl vstd::std_specs::convert::FromSpecImpl<Side> for usize {
    open spec fn obeys_from_spec() -> bool {
        true
    }

    open spec fn from_spec(s: Side) -> usize {
        s.index() as usize
    }
}

} // verus!
