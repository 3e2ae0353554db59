//! The bounded random point sampler.
//!
//! Draws the next target point uniformly from the admissible region while
//! never repeating the previous target, so that every move is a real move.
//! The draws come from `fastrand`; everything around them is verified.

use vstd::prelude::*;

use crate::bounds::Bounds;
use crate::point::PointExt;

verus! {

/// How many redraws are attempted before falling back to a deterministic
/// in-bounds point distinct from the forbidden one.  With at least two
/// admissible points, each redraw repeats the forbidden point with
/// probability at most one half, so the fallback is practically never
/// taken.
pub const MAX_REDRAWS: u32 = 64;

#[verifier::external_type_specification]
#[verifier::external_body]
pub struct ExRng(fastrand::Rng);

/// Relies on fastrand::Rng::i32: a draw from the non-empty inclusive range
/// `lo..=hi` lies within that range.
#[verifier::external_body]
fn rng_range_i32(rng: &fastrand::Rng, lo: i32, hi: i32) -> (r: i32)
    requires
        lo <= hi,
    ensures
        lo <= r <= hi,
{
    rng.i32(lo..=hi)
}

/// Draws the next target point: uniform over the bounds (for a relative
/// window, centred on `orig`), redrawn while it equals the previous target
/// `last_p`, with a deterministic distinct fallback after [`MAX_REDRAWS`]
/// draws.  The result always lies inside the bounds and never equals
/// `last_p`.
pub fn sample_point(rng: &fastrand::Rng, bounds: &Bounds, orig: PointExt, last_p: PointExt) -> (p:
    PointExt)
    requires
        bounds.wf(),
        !bounds.has_empty_range_spec(),
        bounds.in_coord_range(orig),
    ensures
        bounds.contains(orig, p.x as int, p.y as int),
        p != last_p,
{
    let (x_lo, x_hi, y_lo, y_hi): (i32, i32, i32, i32) = match *bounds {
        Bounds::Rect { x1, y1, x2, y2 } => {
            let xs = if x1 <= x2 { (x1, x2) } else { (x2, x1) };
            let ys = if y1 <= y2 { (y1, y2) } else { (y2, y1) };
            (xs.0, xs.1, ys.0, ys.1)
        },
        Bounds::Relative { dx, dy } => (orig.x - dx, orig.x + dx, orig.y - dy, orig.y + dy),
    };
    let mut tries: u32 = 0;
    while tries < MAX_REDRAWS
        invariant
            x_lo == bounds.x_lo(orig),
            x_hi == bounds.x_hi(orig),
            y_lo == bounds.y_lo(orig),
            y_hi == bounds.y_hi(orig),
            x_lo <= x_hi,
            y_lo <= y_hi,
        decreases MAX_REDRAWS - tries,
    {
        let x = rng_range_i32(rng, x_lo, x_hi);
        let y = rng_range_i32(rng, y_lo, y_hi);
        let cand = PointExt::new(x, y);
        if !(cand.x == last_p.x && cand.y == last_p.y) {
            return cand;
        }
        tries = tries + 1;
    }
    // Every draw repeated the previous target; pick the nearest distinct
    // corner instead.  Non-degenerate bounds guarantee one exists.
    if x_lo < x_hi {
        let x = if last_p.x == x_lo { x_hi } else { x_lo };
        PointExt::new(x, y_lo)
    } else {
        let y = if last_p.y == y_lo { y_hi } else { y_lo };
        PointExt::new(x_lo, y)
    }
}

} // verus!
