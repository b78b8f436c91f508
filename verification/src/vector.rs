//! Three-component vectors of fixed-point scalars.

use vstd::prelude::*;

verus! {

/// A 3-vector whose components are fixed-point scalars.
#[derive(Clone, Copy, Debug, PartialEq, Eq, Structural)]
pub struct Vector3 {
    pub x: i64,
    pub y: i64,
    pub z: i64,
}

/// A 3-vector with wide components, used for force accumulation, where
/// sums over many pairs may leave the narrow range.
#[derive(Clone, Copy, Debug, PartialEq, Eq, Structural)]
pub struct WideVector3 {
    pub x: i128,
    pub y: i128,
    pub z: i128,
}

impl Vector3 {
    /// Builds the vector with the given components.
    pub fn new(x: i64, y: i64, z: i64) -> (v: Vector3)
        ensures
            v.x == x && v.y == y && v.z == z,
    {
        Vector3 { x, y, z }
    }

    /// The zero vector.
    pub fn zero() -> (v: Vector3)
        ensures
            v.x == 0 && v.y == 0 && v.z == 0,
    {
        Vector3 { x: 0, y: 0, z: 0 }
    }

    /// Whether every component is bounded in magnitude by `m`.
    pub open spec fn in_bounds(self, m: int) -> bool {
        -m <= self.x <= m && -m <= self.y <= m && -m <= self.z <= m
    }
}

impl WideVector3 {
    /// The zero vector.
    pub fn zero() -> (v: WideVector3)
        ensures
            v.x == 0 && v.y == 0 && v.z == 0,
    {
        WideVector3 { x: 0, y: 0, z: 0 }
    }

    /// Whether every component is bounded in magnitude by `m`.
    pub open spec fn in_bounds(self, m: int) -> bool {
        -m <= self.x <= m && -m <= self.y <= m && -m <= self.z <= m
    }
}

/// Componentwise sum of a sequence of wide vectors, as mathematical
/// integers.
pub open spec fn wide_sum(s: Seq<WideVector3>) -> (int, int, int)
    decreases s.len(),
{
    if s.len() == 0 {
        (0int, 0int, 0int)
    } else {
        let rest = wide_sum(s.drop_last());
        (rest.0 + s.last().x, rest.1 + s.last().y, rest.2 + s.last().z)
    }
}

/// Updating one entry of a sequence shifts its componentwise sum by the
/// difference at that entry.
pub proof fn lemma_wide_sum_update(s: Seq<WideVector3>, i: int, v: WideVector3)
    requires
        0 <= i < s.len(),
    ensures
        wide_sum(s.update(i, v)).0 == wide_sum(s).0 - s[i].x + v.x,
        wide_sum(s.update(i, v)).1 == wide_sum(s).1 - s[i].y + v.y,
        wide_sum(s.update(i, v)).2 == wide_sum(s).2 - s[i].z + v.z,
    decreases s.len(),
{
    let t = s.update(i, v);
    if i == s.len() - 1 {
        assert(t.drop_last() =~= s.drop_last());
    } else {
        lemma_wide_sum_update(s.drop_last(), i, v);
        assert(t.drop_last() =~= s.drop_last().update(i, v));
        assert(t.last() == s.last());
    }
}

} // verus!
