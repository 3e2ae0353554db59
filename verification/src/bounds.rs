//! The admissible region for sampled target points.

use vstd::prelude::*;

use crate::point::PointExt;

verus! {

/// Default half-width and half-height of the window used when no bounds are
/// given on the command line.
pub const DEFAULT_RELATIVE_SPAN: i32 = 500;

/// Where sampled points may fall: either an absolute rectangle given by two
/// corners (in either order), or a window centred on a moving origin.
#[derive(Clone, Copy, PartialEq, Eq, Structural, Debug)]
pub enum Bounds {
    Rect { x1: i32, y1: i32, x2: i32, y2: i32 },
    Relative { dx: i32, dy: i32 },
}

impl Bounds {
    /// A relative window is only meaningful with non-negative spans; an
    /// absolute rectangle is always well-formed since its corners may come
    /// in either order.
    pub open spec fn wf(self) -> bool {
        match self {
            Bounds::Rect { .. } => true,
            Bounds::Relative { dx, dy } => dx >= 0 && dy >= 0,
        }
    }

    /// The bounds admit at most one distinct point.
    pub open spec fn has_empty_range_spec(self) -> bool {
        match self {
            Bounds::Rect { x1, y1, x2, y2 } => x1 == x2 && y1 == y2,
            Bounds::Relative { dx, dy } => dx == 0 && dy == 0,
        }
    }

    /// Smallest admissible x coordinate, given the `origin` that a relative
    /// window is centred on.
    pub open spec fn x_lo(self, origin: PointExt) -> int {
        match self {
            Bounds::Rect { x1, x2, .. } => if x1 <= x2 { x1 as int } else { x2 as int },
            Bounds::Relative { dx, .. } => origin.x - dx,
        }
    }

    /// Largest admissible x coordinate.
    pub open spec fn x_hi(self, origin: PointExt) -> int {
        match self {
            Bounds::Rect { x1, x2, .. } => if x1 <= x2 { x2 as int } else { x1 as int },
            Bounds::Relative { dx, .. } => origin.x + dx,
        }
    }

    /// Smallest admissible y coordinate.
    pub open spec fn y_lo(self, origin: PointExt) -> int {
        match self {
            Bounds::Rect { y1, y2, .. } => if y1 <= y2 { y1 as int } else { y2 as int },
            Bounds::Relative { dy, .. } => origin.y - dy,
        }
    }

    /// Largest admissible y coordinate.
    pub open spec fn y_hi(self, origin: PointExt) -> int {
        match self {
            Bounds::Rect { y1, y2, .. } => if y1 <= y2 { y2 as int } else { y1 as int },
            Bounds::Relative { dy, .. } => origin.y + dy,
        }
    }

    /// Whether the point `(px, py)` falls inside the bounds, for the given
    /// origin.
    pub open spec fn contains(self, origin: PointExt, px: int, py: int) -> bool {
        self.x_lo(origin) <= px <= self.x_hi(origin)
            && self.y_lo(origin) <= py <= self.y_hi(origin)
    }

    /// The whole admissible region fits in `i32` coordinates for the given
    /// origin.  Absolute rectangles always do; a relative window may reach
    /// past the coordinate range when the origin sits near its edge.
    pub open spec fn in_coord_range(self, origin: PointExt) -> bool {
        i32::MIN <= self.x_lo(origin)
            && self.x_hi(origin) <= i32::MAX
            && i32::MIN <= self.y_lo(origin)
            && self.y_hi(origin) <= i32::MAX
    }

    pub fn is_relative(&self) -> (r: bool)
        ensures
            r == (*self is Relative),
    {
        match self {
            Bounds::Rect { .. } => false,
            Bounds::Relative { .. } => true,
        }
    }

    /// Whether the bounds admit at most one distinct point, in which case no
    /// movement could ever be produced and the configuration is rejected.
    pub fn has_empty_range(&self) -> (r: bool)
        ensures
            r == self.has_empty_range_spec(),
    {
        match self {
            Bounds::Rect { x1, y1, x2, y2 } => x1 == x2 && y1 == y2,
            Bounds::Relative { dx, dy } => *dx == 0 && *dy == 0,
        }
    }

    /// Picks the bounds from the optional command-line selections: an
    /// absolute rectangle if one was given, else a relative window if one
    /// was given, else the default relative window.
    pub fn from_args(absolute: Option<(i32, i32, i32, i32)>, relative: Option<(i32, i32)>) -> (b:
        Bounds)
        ensures
            absolute matches Some((x1, y1, x2, y2)) ==> b == (Bounds::Rect { x1, y1, x2, y2 }),
            absolute is None ==> (relative matches Some((dx, dy)) ==> b == (Bounds::Relative {
                dx,
                dy,
            })),
            absolute is None && relative is None ==> b == (Bounds::Relative {
                dx: DEFAULT_RELATIVE_SPAN,
                dy: DEFAULT_RELATIVE_SPAN,
            }),
    {
        if let Some((x1, y1, x2, y2)) = absolute {
            return Bounds::Rect { x1, y1, x2, y2 };
        }
        if let Some((dx, dy)) = relative {
            return Bounds::Relative { dx, dy };
        }
        Bounds::Relative { dx: DEFAULT_RELATIVE_SPAN, dy: DEFAULT_RELATIVE_SPAN }
    }
}

/// `has_empty_range` holds exactly when the bounds admit at most one
/// distinct point: any two contained points are then the same point, and
/// conversely, bounds with a non-empty range contain two distinct points.
pub proof fn lemma_has_empty_range_iff_at_most_one_point(b: Bounds, origin: PointExt)
    requires
        b.wf(),
    ensures
        b.has_empty_range_spec() <==> (forall|px1: int, py1: int, px2: int, py2: int|
            b.contains(origin, px1, py1) && b.contains(origin, px2, py2) ==> px1 == px2 && py1
                == py2),
{
    if b.has_empty_range_spec() {
        assert(b.x_lo(origin) == b.x_hi(origin) && b.y_lo(origin) == b.y_hi(origin));
    } else {
        assert(b.x_lo(origin) < b.x_hi(origin) || b.y_lo(origin) < b.y_hi(origin));
        let lx = b.x_lo(origin);
        let hx = b.x_hi(origin);
        let ly = b.y_lo(origin);
        let hy = b.y_hi(origin);
        assert(b.contains(origin, lx, ly));
        assert(b.contains(origin, hx, hy));
        assert(!(lx == hx && ly == hy));
    }
}

} // verus!
