use mouse_motion::bounds::Bounds;
use mouse_motion::point::PointExt;
use mouse_motion::sampler::sample_point;

#[test]
fn rect_samples_stay_inside_normalized_rectangle() {
    let rng = fastrand::Rng::with_seed(7);
    // corners given in "reversed" order on purpose
    let bounds = Bounds::Rect { x1: 90, y1: 80, x2: 10, y2: 20 };
    let orig = PointExt::new(0, 0);
    let mut last = PointExt::new(50, 50);
    for _ in 0..1000 {
        let p = sample_point(&rng, &bounds, orig, last);
        assert!((10..=90).contains(&p.x));
        assert!((20..=80).contains(&p.y));
        last = p;
    }
}

#[test]
fn relative_samples_stay_inside_window_around_origin() {
    let rng = fastrand::Rng::with_seed(11);
    let bounds = Bounds::Relative { dx: 30, dy: 40 };
    let orig = PointExt::new(200, -100);
    let mut last = orig;
    for _ in 0..1000 {
        let p = sample_point(&rng, &bounds, orig, last);
        assert!((170..=230).contains(&p.x));
        assert!((-140..=-60).contains(&p.y));
        last = p;
    }
}

#[test]
fn sample_never_returns_forbidden_point() {
    let rng = fastrand::Rng::with_seed(3);
    // tiny bounds: only two admissible points, so collisions are frequent
    let bounds = Bounds::Rect { x1: 0, y1: 0, x2: 0, y2: 1 };
    let orig = PointExt::new(0, 0);
    let mut last = PointExt::new(0, 1);
    for _ in 0..200 {
        let p = sample_point(&rng, &bounds, orig, last);
        assert_ne!(p, last);
        last = p;
    }
}

#[test]
fn scenario_hundred_square_avoids_last_point() {
    let rng = fastrand::Rng::with_seed(42);
    let bounds = Bounds::Rect { x1: 0, y1: 0, x2: 100, y2: 100 };
    let orig = PointExt::new(50, 50);
    let last = PointExt::new(50, 50);
    for _ in 0..500 {
        let p = sample_point(&rng, &bounds, orig, last);
        assert!((0..=100).contains(&p.x));
        assert!((0..=100).contains(&p.y));
        assert_ne!(p, PointExt::new(50, 50));
    }
}
