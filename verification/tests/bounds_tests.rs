use mouse_motion::bounds::{Bounds, DEFAULT_RELATIVE_SPAN};

#[test]
fn rect_is_not_relative() {
    let b = Bounds::Rect { x1: 0, y1: 0, x2: 10, y2: 10 };
    assert!(!b.is_relative());
}

#[test]
fn relative_is_relative() {
    let b = Bounds::Relative { dx: 5, dy: 5 };
    assert!(b.is_relative());
}

#[test]
fn rect_empty_range_needs_both_axes_collapsed() {
    assert!(Bounds::Rect { x1: 3, y1: 4, x2: 3, y2: 4 }.has_empty_range());
    // one collapsed axis still admits movement on the other
    assert!(!Bounds::Rect { x1: 3, y1: 4, x2: 3, y2: 9 }.has_empty_range());
    assert!(!Bounds::Rect { x1: 3, y1: 4, x2: 9, y2: 4 }.has_empty_range());
    assert!(!Bounds::Rect { x1: 0, y1: 0, x2: 10, y2: 10 }.has_empty_range());
}

#[test]
fn relative_empty_range_needs_both_spans_zero() {
    assert!(Bounds::Relative { dx: 0, dy: 0 }.has_empty_range());
    assert!(!Bounds::Relative { dx: 0, dy: 1 }.has_empty_range());
    assert!(!Bounds::Relative { dx: 1, dy: 0 }.has_empty_range());
    assert!(!Bounds::Relative { dx: 500, dy: 500 }.has_empty_range());
}

#[test]
fn from_args_prefers_absolute() {
    let b = Bounds::from_args(Some((1, 2, 3, 4)), Some((9, 9)));
    assert_eq!(b, Bounds::Rect { x1: 1, y1: 2, x2: 3, y2: 4 });
}

#[test]
fn from_args_takes_relative_when_no_absolute() {
    let b = Bounds::from_args(None, Some((7, 8)));
    assert_eq!(b, Bounds::Relative { dx: 7, dy: 8 });
}

#[test]
fn from_args_defaults_to_relative_window() {
    let b = Bounds::from_args(None, None);
    assert_eq!(
        b,
        Bounds::Relative { dx: DEFAULT_RELATIVE_SPAN, dy: DEFAULT_RELATIVE_SPAN }
    );
}
