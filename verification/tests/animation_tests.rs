use mouse_motion::animation::{ease_in_out, lerp, SCALE};
use mouse_motion::point::PointExt;

#[test]
fn lerp_at_zero_returns_min() {
    assert_eq!(lerp(10, 20, 0), 10);
    assert_eq!(lerp(-5, 5, 0), -5);
}

#[test]
fn lerp_at_full_scale_returns_max() {
    assert_eq!(lerp(10, 20, SCALE), 20);
    assert_eq!(lerp(-5, 5, SCALE), 5);
}

#[test]
fn lerp_below_zero_behaves_as_zero() {
    assert_eq!(lerp(10, 20, -3), lerp(10, 20, 0));
    assert_eq!(lerp(10, 20, i64::MIN), 10);
}

#[test]
fn lerp_above_scale_behaves_as_full() {
    assert_eq!(lerp(10, 20, SCALE + 7), lerp(10, 20, SCALE));
    assert_eq!(lerp(10, 20, i64::MAX), 20);
}

#[test]
fn lerp_midpoint_rounds_to_nearest() {
    // halfway between 0 and 10 is exactly 5
    assert_eq!(lerp(0, 10, SCALE / 2), 5);
    // halfway between 0 and 5 is 2.5, rounded away from zero
    assert_eq!(lerp(0, 5, SCALE / 2), 3);
    // and the same magnitude on the negative side
    assert_eq!(lerp(0, -5, SCALE / 2), -3);
}

#[test]
fn lerp_stays_between_endpoints() {
    for t in 0..=SCALE {
        let r = lerp(3, 97, t);
        assert!((3..=97).contains(&r));
        let r = lerp(97, 3, t);
        assert!((3..=97).contains(&r));
    }
}

#[test]
fn ease_in_out_endpoints() {
    assert_eq!(ease_in_out(0), 0);
    assert_eq!(ease_in_out(SCALE), SCALE);
}

#[test]
fn ease_in_out_midpoint() {
    assert_eq!(ease_in_out(SCALE / 2), SCALE / 2);
}

#[test]
fn ease_in_out_is_monotone_non_decreasing() {
    let mut prev = ease_in_out(0);
    for t in 1..=SCALE {
        let cur = ease_in_out(t);
        assert!(cur >= prev, "easing decreased at t={t}");
        prev = cur;
    }
}

#[test]
fn ease_in_out_starts_slow_and_ends_slow() {
    // quadratic ease-in: early progress is below linear
    assert!(ease_in_out(100) < 100);
    // quadratic ease-out: late progress is above linear
    assert!(ease_in_out(900) > 900);
}

#[test]
fn point_lerp_interpolates_each_coordinate() {
    let a = PointExt::new(0, 100);
    let b = PointExt::new(100, 0);
    assert_eq!(PointExt::lerp(a, b, 0), a);
    assert_eq!(PointExt::lerp(a, b, SCALE), b);
    let mid = PointExt::lerp(a, b, SCALE / 2);
    assert_eq!(mid, PointExt::new(50, 50));
}

#[test]
fn point_lerp_clamps_progress() {
    let a = PointExt::new(-3, 4);
    let b = PointExt::new(7, -9);
    assert_eq!(PointExt::lerp(a, b, -50), a);
    assert_eq!(PointExt::lerp(a, b, 2 * SCALE), b);
}

#[test]
fn is_near_compares_euclidean_distance() {
    let origin = PointExt::new(0, 0);
    // 3-4-5 triangle: distance exactly 5
    assert!(!origin.is_near(PointExt::new(3, 4), 5));
    assert!(origin.is_near(PointExt::new(3, 4), 6));
    // equal points are near for any positive tolerance
    assert!(origin.is_near(origin, 1));
    // zero tolerance admits nothing
    assert!(!origin.is_near(origin, 0));
}
