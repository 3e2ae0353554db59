//! Screen coordinates and the tolerance-based nearness predicate.

use vstd::prelude::*;

use crate::animation;
use crate::animation::{lerp_spec, SCALE};

verus! {

/// An integer screen coordinate pair.
#[derive(Clone, Copy, PartialEq, Eq, Structural, Debug)]
pub struct PointExt {
    pub x: i32,
    pub y: i32,
}

/// Squared Euclidean distance between two points.
pub open spec fn dist_sq(a: PointExt, b: PointExt) -> int {
    (a.x - b.x) * (a.x - b.x) + (a.y - b.y) * (a.y - b.y)
}

/// Two points are near when their Euclidean distance is strictly below
/// `tolerance`; for a non-negative tolerance this is exactly a comparison of
/// the squared distance against the squared tolerance.
pub open spec fn is_near_spec(a: PointExt, b: PointExt, tolerance: int) -> bool {
    dist_sq(a, b) < tolerance * tolerance
}

impl PointExt {
    pub fn new(x: i32, y: i32) -> (p: Self)
        ensures
            p.x == x,
            p.y == y,
    {
        Self { x, y }
    }

    /// Whether `p` lies strictly within `tolerance` units of `self`,
    /// measured by Euclidean distance.
    pub fn is_near(&self, p: Self, tolerance: i64) -> (r: bool)
        requires
            tolerance >= 0,
        ensures
            r == is_near_spec(*self, p, tolerance as int),
    {
        let dx: i128 = self.x as i128 - p.x as i128;
        let dy: i128 = self.y as i128 - p.y as i128;
        proof {
            assert(0 <= dx * dx < 0x20000000000000000) by (nonlinear_arith)
                requires -0x100000000 <= dx <= 0x100000000;
            assert(0 <= dy * dy < 0x20000000000000000) by (nonlinear_arith)
                requires -0x100000000 <= dy <= 0x100000000;
            assert(0 <= (tolerance as int) * (tolerance as int)
                < 0x40000000000000000000000000000000)
                by (nonlinear_arith)
                requires 0 <= tolerance <= i64::MAX;
        }
        let d2: i128 = dx * dx + dy * dy;
        let t2: i128 = (tolerance as i128) * (tolerance as i128);
        d2 < t2
    }

    /// Interpolates each coordinate independently between `p1` and `p2` at
    /// fixed-point progress `t` on the scale [`SCALE`], with `t` clamped to
    /// `[0, SCALE]`.  Each coordinate of the result lies between the
    /// corresponding coordinates of the two endpoints.
    pub fn lerp(p1: Self, p2: Self, t: i64) -> (p: Self)
        ensures
            p.x == lerp_spec(p1.x as int, p2.x as int, t as int),
            p.y == lerp_spec(p1.y as int, p2.y as int, t as int),
            t <= 0 ==> p == p1,
            t >= SCALE ==> p == p2,
    {
        let x: i64 = animation::lerp(p1.x as i64, p2.x as i64, t);
        let y: i64 = animation::lerp(p1.y as i64, p2.y as i64, t);
        Self { x: x as i32, y: y as i32 }
    }
}

} // verus!
