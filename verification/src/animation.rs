//! Fixed-point easing and interpolation.
//!
//! Animation progress is a fixed-point value on the scale [`SCALE`]: `0`
//! stands for the start of a move, `SCALE` for its end, `SCALE / 2` for the
//! midpoint.  All arithmetic is exact integer arithmetic; divisions round to
//! the nearest integer, halves away from zero.

use vstd::prelude::*;

verus! {

/// Fixed-point scale for animation progress: `SCALE` stands for full
/// progress (1.0), `SCALE / 2` for half progress, and so on.
pub const SCALE: i64 = 1000;

/// Progress clamped to the admissible range `[0, SCALE]`.
pub open spec fn clamp_progress(t: int) -> int {
    if t < 0 {
        0
    } else if t > SCALE as int {
        SCALE as int
    } else {
        t
    }
}

/// `num / den` rounded to the nearest integer, halves away from zero.
pub open spec fn round_div(num: int, den: int) -> int
    recommends
        den > 0,
{
    if num >= 0 {
        (2 * num + den) / (2 * den)
    } else {
        -((2 * (-num) + den) / (2 * den))
    }
}

/// Rounding a quotient keeps it between any integer bounds that hold of the
/// exact quotient.
pub proof fn lemma_round_div_bounds(num: int, den: int, lo: int, hi: int)
    requires
        den > 0,
        lo * den <= num,
        num <= hi * den,
    ensures
        lo <= round_div(num, den) <= hi,
{
    if num >= 0 {
        assert(hi >= 0) by (nonlinear_arith)
            requires den > 0 && num >= 0 && num <= hi * den;
        assert((2 * num + den) / (2 * den) <= hi) by (nonlinear_arith)
            requires den > 0 && num >= 0 && num <= hi * den && hi >= 0;
        assert((2 * num + den) / (2 * den) >= lo) by (nonlinear_arith)
            requires den > 0 && num >= 0 && lo * den <= num;
    } else {
        assert(lo <= 0) by (nonlinear_arith)
            requires den > 0 && num < 0 && lo * den <= num;
        assert(-((2 * (-num) + den) / (2 * den)) >= lo) by (nonlinear_arith)
            requires den > 0 && num < 0 && lo * den <= num && lo <= 0;
        assert(-((2 * (-num) + den) / (2 * den)) <= hi) by (nonlinear_arith)
            requires den > 0 && num < 0 && num <= hi * den;
    }
}

/// Rounding an exact multiple of the divisor recovers the factor.
pub proof fn lemma_round_div_exact(m: int, den: int)
    requires
        den > 0,
    ensures
        round_div(m * den, den) == m,
{
    lemma_round_div_bounds(m * den, den, m, m);
}

/// Rounding is monotone in the numerator.
pub proof fn lemma_round_div_monotonic(num1: int, num2: int, den: int)
    requires
        den > 0,
        num1 <= num2,
    ensures
        round_div(num1, den) <= round_div(num2, den),
{
    if num1 >= 0 {
        assert((2 * num1 + den) / (2 * den) <= (2 * num2 + den) / (2 * den))
            by (nonlinear_arith)
            requires den > 0 && 0 <= num1 <= num2;
    } else if num2 >= 0 {
        assert((2 * (-num1) + den) / (2 * den) >= 0) by (nonlinear_arith)
            requires den > 0 && num1 < 0;
        assert((2 * num2 + den) / (2 * den) >= 0) by (nonlinear_arith)
            requires den > 0 && num2 >= 0;
    } else {
        assert((2 * (-num2) + den) / (2 * den) <= (2 * (-num1) + den) / (2 * den))
            by (nonlinear_arith)
            requires den > 0 && num1 <= num2 < 0;
    }
}

/// Executable rounding division; exact per [`round_div`].
fn round_div_i128(num: i128, den: i128) -> (r: i128)
    requires
        0 < den <= i128::MAX / 4,
        -(i128::MAX / 4) <= num <= i128::MAX / 4,
    ensures
        r == round_div(num as int, den as int),
{
    if num >= 0 {
        let q: u128 = (2 * (num as u128) + (den as u128)) / (2 * (den as u128));
        assert(q <= (2 * num + den) as u128) by (nonlinear_arith)
            requires den > 0 && num >= 0 && q == ((2 * num + den) as u128) / ((2 * den) as u128);
        q as i128
    } else {
        let m: i128 = -num;
        let q: u128 = (2 * (m as u128) + (den as u128)) / (2 * (den as u128));
        assert(q <= (2 * m + den) as u128) by (nonlinear_arith)
            requires den > 0 && m > 0 && q == ((2 * m + den) as u128) / ((2 * den) as u128);
        -(q as i128)
    }
}

/// Linear interpolation between `min` and `max` at fixed-point progress `t`.
///
/// `t` is clamped to `[0, SCALE]` before use, so progress below the start
/// behaves as the start and progress beyond the end as the end.
pub open spec fn lerp_spec(min: int, max: int, t: int) -> int {
    min + round_div((max - min) * clamp_progress(t), SCALE as int)
}

/// Linearly interpolates a value between `min` and `max`, given a fixed-point
/// progress `t` on the scale [`SCALE`].  `t` is clamped to `[0, SCALE]`
/// (inclusive), and the result always lies between the two endpoints.
pub fn lerp(min: i64, max: i64, t: i64) -> (r: i64)
    ensures
        r == lerp_spec(min as int, max as int, t as int),
        min <= max ==> min <= r <= max,
        max <= min ==> max <= r <= min,
        t <= 0 ==> r == min,
        t >= SCALE ==> r == max,
{
    let tc: i64 = if t < 0 {
        0
    } else if t > SCALE {
        SCALE
    } else {
        t
    };
    proof {
        assert(-(i128::MAX / 4) <= (max - min) * tc <= i128::MAX / 4) by (nonlinear_arith)
            requires
                i64::MIN <= max <= i64::MAX,
                i64::MIN <= min <= i64::MAX,
                0 <= tc <= 1000;
    }
    let num: i128 = (max as i128 - min as i128) * (tc as i128);
    let d: i128 = round_div_i128(num, SCALE as i128);
    proof {
        if min <= max {
            assert(0 * (SCALE as int) <= num) by (nonlinear_arith)
                requires num == (max - min) * tc && min <= max && tc >= 0;
            assert(num <= (max - min) * (SCALE as int)) by (nonlinear_arith)
                requires num == (max - min) * tc && min <= max && tc <= SCALE as int;
            lemma_round_div_bounds(num as int, SCALE as int, 0, max as int - min as int);
        } else {
            assert((max - min) * (SCALE as int) <= num) by (nonlinear_arith)
                requires num == (max - min) * tc && max < min && tc <= SCALE as int;
            assert(num <= 0 * (SCALE as int)) by (nonlinear_arith)
                requires num == (max - min) * tc && max < min && tc >= 0;
            lemma_round_div_bounds(num as int, SCALE as int, max as int - min as int, 0);
        }
        if tc == SCALE {
            lemma_round_div_exact(max as int - min as int, SCALE as int);
        }
        if tc == 0 {
            assert(num == 0) by (nonlinear_arith)
                requires num == (max - min) * tc && tc == 0;
            lemma_round_div_exact(0, SCALE as int);
        }
    }
    let r: i128 = min as i128 + d;
    r as i64
}

/// The eased progress: `3 t^2 - 2 t^3` on the fixed-point scale, which is the
/// linear interpolation, at `t` itself, between the quadratic ease-in `t^2`
/// and the quadratic ease-out `1 - (1 - t)^2`.
pub open spec fn ease_in_out_spec(t: int) -> int
    recommends
        0 <= t <= SCALE as int,
{
    round_div(3 * t * t * (SCALE as int) - 2 * t * t * t, (SCALE as int) * (SCALE as int))
}

/// Eases `t` using simple quadratic curves, producing a soft acceleration
/// near the start and a soft deceleration near the end of a move.
pub fn ease_in_out(t: i64) -> (r: i64)
    requires
        0 <= t <= SCALE,
    ensures
        r == ease_in_out_spec(t as int),
        0 <= r <= SCALE,
{
    let n: i128 = t as i128;
    let s: i128 = SCALE as i128;
    proof {
        assert(0 <= t * t * (3 * (SCALE as int) - 2 * t)) by (nonlinear_arith)
            requires 0 <= t <= SCALE as int;
        assert(t * t * (3 * (SCALE as int) - 2 * t)
            == 3 * t * t * (SCALE as int) - 2 * t * t * t) by (nonlinear_arith);
        assert((SCALE as int) * (SCALE as int) * (SCALE as int)
            - (3 * t * t * (SCALE as int) - 2 * t * t * t)
            == ((SCALE as int) - t) * ((SCALE as int) - t) * ((SCALE as int) + 2 * t))
            by (nonlinear_arith);
        assert(0 <= ((SCALE as int) - t) * ((SCALE as int) - t) * ((SCALE as int) + 2 * t))
            by (nonlinear_arith)
            requires 0 <= t <= SCALE as int;
    }
    proof {
        assert(0 <= 3 * n * n <= 3000000) by (nonlinear_arith)
            requires 0 <= n <= 1000;
        assert(0 <= 3 * n * n * s <= 3000000000) by (nonlinear_arith)
            requires 0 <= n <= 1000 && s == 1000;
        assert(0 <= 2 * n * n <= 2000000) by (nonlinear_arith)
            requires 0 <= n <= 1000;
        assert(0 <= 2 * n * n * n <= 2000000000) by (nonlinear_arith)
            requires 0 <= n <= 1000;
    }
    let num: i128 = 3 * n * n * s - 2 * n * n * n;
    let r: i128 = round_div_i128(num, s * s);
    proof {
        assert(0 * ((SCALE as int) * (SCALE as int)) == 0) by (nonlinear_arith);
        assert((SCALE as int) * ((SCALE as int) * (SCALE as int))
            == (SCALE as int) * (SCALE as int) * (SCALE as int)) by (nonlinear_arith);
        lemma_round_div_bounds(
            num as int,
            (SCALE as int) * (SCALE as int),
            0,
            SCALE as int,
        );
    }
    r as i64
}

/// The easing curve starts at no progress, ends at full progress, and maps
/// the midpoint to the midpoint.
pub proof fn lemma_ease_in_out_endpoints()
    ensures
        ease_in_out_spec(0) == 0,
        ease_in_out_spec(SCALE as int) == SCALE as int,
        ease_in_out_spec(SCALE as int / 2) == SCALE as int / 2,
{
    lemma_round_div_exact(0, (SCALE as int) * (SCALE as int));
    assert(3 * (SCALE as int) * (SCALE as int) * (SCALE as int)
        - 2 * (SCALE as int) * (SCALE as int) * (SCALE as int)
        == (SCALE as int) * ((SCALE as int) * (SCALE as int))) by (nonlinear_arith);
    lemma_round_div_exact(SCALE as int, (SCALE as int) * (SCALE as int));
    let h = SCALE as int / 2;
    assert(h == 500);
    assert(3 * h * h * (SCALE as int) - 2 * h * h * h == h * ((SCALE as int) * (SCALE as int)))
        by (nonlinear_arith)
        requires h == 500 && SCALE as int == 1000;
    lemma_round_div_exact(h, (SCALE as int) * (SCALE as int));
}

/// The easing curve is monotone non-decreasing on `[0, SCALE]`.
pub proof fn lemma_ease_in_out_monotonic(t1: int, t2: int)
    requires
        0 <= t1 <= t2 <= SCALE as int,
    ensures
        ease_in_out_spec(t1) <= ease_in_out_spec(t2),
{
    assert(3 * t1 * t1 * (SCALE as int) - 2 * t1 * t1 * t1
        <= 3 * t2 * t2 * (SCALE as int) - 2 * t2 * t2 * t2) by (nonlinear_arith)
        requires 0 <= t1 <= t2 <= SCALE as int;
    lemma_round_div_monotonic(
        3 * t1 * t1 * (SCALE as int) - 2 * t1 * t1 * t1,
        3 * t2 * t2 * (SCALE as int) - 2 * t2 * t2 * t2,
        (SCALE as int) * (SCALE as int),
    );
}

} // verus!
