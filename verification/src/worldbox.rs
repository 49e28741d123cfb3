//! Boxes of the world, given by two corners, both inside the box.
use vstd::prelude::*;
use crate::pos::IVec3;

verus! {

/// The box of positions from corner `a` to corner `b`, both included.
#[derive(Clone, Copy, Debug, PartialEq, Eq, Structural)]
pub struct WorldBox {
    pub a: IVec3,
    pub b: IVec3,
}

impl Default for WorldBox {
    /// The box of the origin alone.
    fn default() -> (r: Self)
        ensures
            r == (WorldBox { a: IVec3 { x: 0, y: 0, z: 0 }, b: IVec3 { x: 0, y: 0, z: 0 } }),
    {
        WorldBox { a: IVec3 { x: 0, y: 0, z: 0 }, b: IVec3 { x: 0, y: 0, z: 0 } }
    }
}

/// Whether `p` lies in the box from `a` to `b`.
pub open spec fn box_has(a: IVec3, b: IVec3, p: IVec3) -> bool {
    a.x <= p.x <= b.x && a.y <= p.y <= b.y && a.z <= p.z <= b.z
}

impl WorldBox {
    pub fn new(a: IVec3, b: IVec3) -> (r: Self)
        ensures
            r == (WorldBox { a, b }),
    {
        Self { a, b }
    }

    /// The spec of [`WorldBox::contains`]: each corner of `other` lies at or
    /// inside the matching corner of `self`.
    pub open spec fn spec_contains(self, other: WorldBox) -> bool {
        &&& self.a.x <= other.a.x && self.a.y <= other.a.y && self.a.z <= other.a.z
        &&& self.b.x >= other.b.x && self.b.y >= other.b.y && self.b.z >= other.b.z
    }

    /// The spec of [`WorldBox::intersects`]: the ranges overlap on every axis.
    pub open spec fn spec_intersects(self, other: WorldBox) -> bool {
        &&& self.a.x <= other.b.x && self.b.x >= other.a.x
        &&& self.a.y <= other.b.y && self.b.y >= other.a.y
        &&& self.a.z <= other.b.z && self.b.z >= other.a.z
    }

    /// Whether `other` contains `self`.
    pub fn is_within(&self, other: &WorldBox) -> (r: bool)
        ensures
            r == other.spec_contains(*self),
    {
        other.contains(self)
    }

    pub fn contains(&self, other: &WorldBox) -> (r: bool)
        ensures
            r == self.spec_contains(*other),
    {
        self.a.x <= other.a.x && self.a.y <= other.a.y && self.a.z <= other.a.z && self.b.x
            >= other.b.x && self.b.y >= other.b.y && self.b.z >= other.b.z
    }

    pub fn contains_point(&self, p: IVec3) -> (r: bool)
        ensures
            r == box_has(self.a, self.b, p),
    {
        self.a.x <= p.x && self.a.y <= p.y && self.a.z <= p.z && self.b.x >= p.x && self.b.y >= p.y
            && self.b.z >= p.z
    }

    pub fn intersects(&self, other: &WorldBox) -> (r: bool)
        ensures
            r == self.spec_intersects(*other),
    {
        self.a.x <= other.b.x && self.b.x >= other.a.x && self.a.y <= other.b.y && self.b.y
            >= other.a.y && self.a.z <= other.b.z && self.b.z >= other.a.z
    }
}

/// A box that contains another holds every point of it.
pub proof fn lemma_contains_points(outer: WorldBox, inner: WorldBox, p: IVec3)
    requires
        outer.spec_contains(inner),
        box_has(inner.a, inner.b, p),
    ensures
        box_has(outer.a, outer.b, p),
{
}

/// Containment is reflexive and transitive.
pub proof fn lemma_contains_order(a: WorldBox, b: WorldBox, c: WorldBox)
    ensures
        a.spec_contains(a),
        a.spec_contains(b) && b.spec_contains(c) ==> a.spec_contains(c),
{
}

/// Whether the first corner of the box lies at or below the second on every
/// axis.
pub open spec fn ordered(w: WorldBox) -> bool {
    w.a.x <= w.b.x && w.a.y <= w.b.y && w.a.z <= w.b.z
}

/// Intersection is symmetric.
pub proof fn lemma_intersects_symmetric(a: WorldBox, b: WorldBox)
    ensures
        a.spec_intersects(b) == b.spec_intersects(a),
{
}

/// Two boxes whose corners are ordered intersect exactly when they share a
/// point.
pub proof fn lemma_intersects_shared_point(a: WorldBox, b: WorldBox)
    requires
        ordered(a),
        ordered(b),
    ensures
        a.spec_intersects(b) <==> exists|p: IVec3| box_has(a.a, a.b, p) && box_has(b.a, b.b, p),
{
    if a.spec_intersects(b) {
        let p = IVec3 {
            x: if a.a.x > b.a.x { a.a.x } else { b.a.x },
            y: if a.a.y > b.a.y { a.a.y } else { b.a.y },
            z: if a.a.z > b.a.z { a.a.z } else { b.a.z },
        };
        assert(box_has(a.a, a.b, p) && box_has(b.a, b.b, p));
    }
}

/// A box that contains a non-empty box intersects it.
pub proof fn lemma_contains_intersects(outer: WorldBox, inner: WorldBox)
    requires
        outer.spec_contains(inner),
        ordered(inner),
    ensures
        outer.spec_intersects(inner),
{
}

} // verus!
