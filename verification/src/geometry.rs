//! Spatial anchors for board squares.
//!
//! Each square of the board carries a cached anchor point supplied once by
//! the surrounding application (from its scene geometry). The anchor is held
//! in fixed-point form, so distance comparisons are exact. Coordinates are
//! bounded so that squared distances never overflow.

use vstd::prelude::*;

verus! {

/// Largest magnitude an anchor coordinate may have. With this bound a
/// squared Euclidean distance fits comfortably in `i64`.
pub const ANCHOR_BOUND: i64 = 536870912;

/// A point in the application's 3-D space, in fixed-point units.
#[derive(Clone, Copy, Debug, PartialEq, Eq, Structural)]
pub struct Point3 {
    pub x: i64,
    pub y: i64,
    pub z: i64,
}

impl Point3 {
    /// Whether every coordinate lies within `ANCHOR_BOUND`.
    pub open spec fn bounded(self) -> bool {
        &&& -ANCHOR_BOUND <= self.x <= ANCHOR_BOUND
        &&& -ANCHOR_BOUND <= self.y <= ANCHOR_BOUND
        &&& -ANCHOR_BOUND <= self.z <= ANCHOR_BOUND
    }

    /// Builds a point, rejecting coordinates outside `ANCHOR_BOUND`.
    pub fn new(x: i64, y: i64, z: i64) -> (r: Option<Point3>)
        ensures
            match r {
                Some(p) => p.bounded() && p == (Point3 { x, y, z }),
                None => !(Point3 { x, y, z }).bounded(),
            },
    {
        if -ANCHOR_BOUND <= x && x <= ANCHOR_BOUND && -ANCHOR_BOUND <= y && y <= ANCHOR_BOUND
            && -ANCHOR_BOUND <= z && z <= ANCHOR_BOUND {
            Some(Point3 { x, y, z })
        } else {
            None
        }
    }
}

/// Squared Euclidean distance between two points, over the integers.
pub open spec fn spec_dist_sq(a: Point3, b: Point3) -> int {
    (a.x - b.x) * (a.x - b.x) + (a.y - b.y) * (a.y - b.y) + (a.z - b.z) * (a.z - b.z)
}

/// Computes the squared Euclidean distance between two bounded points.
pub fn dist_sq(a: Point3, b: Point3) -> (r: i64)
    requires
        a.bounded(),
        b.bounded(),
    ensures
        r == spec_dist_sq(a, b),
        r >= 0,
{
    let dx = a.x - b.x;
    let dy = a.y - b.y;
    let dz = a.z - b.z;
    proof {
        assert(dx * dx <= 1152921504606846976 && dx * dx >= 0) by (nonlinear_arith)
            requires -1073741824 <= dx <= 1073741824;
        assert(dy * dy <= 1152921504606846976 && dy * dy >= 0) by (nonlinear_arith)
            requires -1073741824 <= dy <= 1073741824;
        assert(dz * dz <= 1152921504606846976 && dz * dz >= 0) by (nonlinear_arith)
            requires -1073741824 <= dz <= 1073741824;
    }
    dx * dx + dy * dy + dz * dz
}

} // verus!
