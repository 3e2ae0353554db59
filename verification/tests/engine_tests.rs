use mouse_motion::bounds::Bounds;
use mouse_motion::config::{Config, ConfigError};
use mouse_motion::engine::{
    decode_key, frame_period_ms, place_outcome, FrameDecision, KeyCommand, MouseError, MoveState,
    PauseCtl, PauseStep,
};
use mouse_motion::point::PointExt;

fn test_config(animate: bool, auto_pause: bool) -> Config {
    Config::new(
        1000,
        Some(10_000),
        60,
        Bounds::Rect { x1: 0, y1: 0, x2: 100, y2: 100 },
        animate,
        auto_pause,
    )
    .unwrap()
}

#[test]
fn config_new_validates_in_order() {
    let empty = Bounds::Rect { x1: 5, y1: 5, x2: 5, y2: 5 };
    let good = Bounds::Relative { dx: 500, dy: 500 };
    assert_eq!(
        Config::new(1000, None, 60, empty, true, true),
        Err(ConfigError::EmptyBounds)
    );
    assert_eq!(
        Config::new(1000, None, 60, Bounds::Relative { dx: -1, dy: 5 }, true, true),
        Err(ConfigError::EmptyBounds)
    );
    assert_eq!(
        Config::new(0, None, 60, good, true, true),
        Err(ConfigError::NonPositiveInterval)
    );
    assert_eq!(
        Config::new(1000, None, 0, good, true, true),
        Err(ConfigError::NonPositiveFps)
    );
    let cfg = Config::new(1000, None, 60, good, true, true).unwrap();
    // the pause interval defaults to the movement interval
    assert_eq!(cfg.pause_interval_ms, 1000);
    assert_eq!(Config::new(1000, Some(7), 60, good, true, true).unwrap().pause_interval_ms, 7);
}

#[test]
fn toggle_animate_flips_only_that_flag() {
    let mut cfg = test_config(true, true);
    cfg.toggle_animate();
    assert!(!cfg.animate);
    assert!(cfg.auto_pause);
    assert_eq!(cfg.interval_ms, 1000);
    cfg.toggle_animate();
    assert!(cfg.animate);
}

#[test]
fn frame_period_rounds_to_nearest_millisecond() {
    // 1000 ms / 60 frames = 16.67 ms, rounded to 17
    assert_eq!(frame_period_ms(60), 17);
    assert_eq!(frame_period_ms(1), 1000);
    assert_eq!(frame_period_ms(1000), 1);
    // 0.5 rounds away from zero
    assert_eq!(frame_period_ms(2000), 1);
    assert_eq!(frame_period_ms(3), 333);
}

#[test]
fn key_decoding() {
    assert_eq!(decode_key('q', false), KeyCommand::Quit);
    assert_eq!(decode_key('p', false), KeyCommand::TogglePause);
    assert_eq!(decode_key('a', false), KeyCommand::ToggleAnimate);
    assert_eq!(decode_key('x', false), KeyCommand::Unknown);
    assert_eq!(decode_key('c', true), KeyCommand::Quit);
    assert_eq!(decode_key('q', true), KeyCommand::NoSignal);
}

#[test]
fn frame_aborts_busy_when_device_strays() {
    let cfg = test_config(true, true);
    let st = MoveState::begin(PointExt::new(0, 0));
    let target = PointExt::new(100, 100);
    // the device jumped 60 units away from the last commanded position
    let d = st.frame_decision(&cfg, target, PointExt::new(60, 0));
    assert_eq!(d, FrameDecision::Busy);
    // within tolerance (49 < 50): not busy
    let d = st.frame_decision(&cfg, target, PointExt::new(49, 0));
    assert_ne!(d, FrameDecision::Busy);
}

#[test]
fn frame_never_busy_without_auto_pause() {
    let cfg = test_config(true, false);
    let st = MoveState::begin(PointExt::new(0, 0));
    let target = PointExt::new(100, 100);
    for far in [0, 50, 500, 5000] {
        let d = st.frame_decision(&cfg, target, PointExt::new(far, far));
        assert_ne!(d, FrameDecision::Busy);
    }
}

#[test]
fn frames_interpolate_towards_the_target() {
    let cfg = test_config(true, true);
    let start = PointExt::new(0, 0);
    let target = PointExt::new(100, 100);
    let mut st = MoveState::begin(start);
    // at the start the interpolant equals the start: nothing to command
    assert_eq!(st.frame_decision(&cfg, target, start), FrameDecision::Hold);
    // mid-move the frame commands the eased midpoint
    st.advance(500);
    assert!(!st.finished(&cfg));
    match st.frame_decision(&cfg, target, start) {
        FrameDecision::Command(p) => {
            assert_eq!(p, PointExt::new(50, 50));
            st.note_command(p);
        }
        other => panic!("expected a command, got {other:?}"),
    }
    assert_eq!(st.last_pos, PointExt::new(50, 50));
    // after the full interval the move is finished
    st.advance(500);
    assert!(st.finished(&cfg));
}

#[test]
fn uninterrupted_animated_move_reaches_target() {
    // interval 1000 ms at 60 fps: 17 ms frames, 59 of them
    let cfg = test_config(true, true);
    let start = PointExt::new(0, 0);
    let target = PointExt::new(100, 100);
    let frame = frame_period_ms(cfg.fps);
    assert_eq!(frame, 17);
    let mut st = MoveState::begin(start);
    let mut frames = 0;
    while !st.finished(&cfg) {
        // the device sits wherever the engine last put it
        let curr = st.last_pos;
        match st.frame_decision(&cfg, target, curr) {
            FrameDecision::Busy => panic!("nothing interfered, yet busy"),
            FrameDecision::Command(p) => st.note_command(p),
            FrameDecision::Hold => {}
        }
        st.advance(frame);
        frames += 1;
    }
    assert_eq!(st.last_pos, target);
    assert_eq!(frames, 59);
}

#[test]
fn placement_busy_exactly_when_strayed_with_auto_pause() {
    let cfg = test_config(false, true);
    let target = PointExt::new(10, 10);
    assert_eq!(place_outcome(&cfg, target, PointExt::new(10, 10)), Ok(()));
    assert_eq!(place_outcome(&cfg, target, PointExt::new(30, 30)), Ok(()));
    assert_eq!(
        place_outcome(&cfg, target, PointExt::new(100, 10)),
        Err(MouseError::Busy)
    );
}

#[test]
fn placement_never_busy_without_auto_pause() {
    let cfg = test_config(false, false);
    let target = PointExt::new(10, 10);
    for far in [0, 100, 10_000] {
        assert_eq!(place_outcome(&cfg, target, PointExt::new(far, far)), Ok(()));
    }
}

#[test]
fn pause_completes_after_steady_interval() {
    let anchor = PointExt::new(5, 5);
    let mut ctl = PauseCtl::start(200, anchor);
    assert_eq!(ctl.remaining_ms(), 200);
    for _ in 0..3 {
        assert_eq!(ctl.step(anchor, false), PauseStep::Tick);
        ctl.advance(100);
    }
    // 300 ms of steady time exceed the 200 ms interval
    assert_eq!(ctl.step(anchor, false), PauseStep::Done);
    assert_eq!(ctl.remaining_ms(), 0);
}

#[test]
fn pause_movement_resets_the_full_countdown() {
    let anchor = PointExt::new(0, 0);
    let mut ctl = PauseCtl::start(200, anchor);
    ctl.advance(150);
    assert_eq!(ctl.remaining_ms(), 50);
    // the device moved 150 units away: countdown restarts in full
    let moved = PointExt::new(150, 0);
    assert_eq!(ctl.step(moved, false), PauseStep::Reset);
    assert_eq!(ctl.remaining_ms(), 200);
    assert_eq!(ctl.anchor, moved);
    // small jitter below the tolerance does not reset
    ctl.advance(10);
    assert_eq!(ctl.step(PointExt::new(160, 20), false), PauseStep::Tick);
    assert_eq!(ctl.remaining_ms(), 190);
}

#[test]
fn error_messages() {
    assert_eq!(MouseError::Busy.message(), "mouse was in use");
    assert_eq!(MouseError::InternalError.message(), "internal error");
    assert_eq!(
        ConfigError::NonPositiveInterval.message(),
        "interval must be a positive number"
    );
    assert_eq!(
        ConfigError::FpsOutOfRange.message(),
        format!("fps must be between 1 and {}", u32::MAX)
    );
}

#[test]
fn pause_cancels_on_pending_signal() {
    let anchor = PointExt::new(0, 0);
    let mut ctl = PauseCtl::start(200, anchor);
    assert_eq!(ctl.step(anchor, true), PauseStep::Cancelled);
    assert_eq!(ctl.remaining_ms(), 200);
}
