//! Frame-timed motion decisions, busy detection and the pause controller.
//!
//! The engine is a set of verified decision functions: the unverified shell
//! reads the device position, measures time and polls for user input, hands
//! those observations in, and performs whatever the decision says (command
//! the device, keep waiting, or abort).  All timing is integer milliseconds
//! and all progress values are fixed-point on [`SCALE`].

use vstd::prelude::*;

use crate::animation;
use crate::animation::{clamp_progress, ease_in_out_spec, lerp_spec, round_div, SCALE};
use crate::config::Config;
use crate::point::{is_near_spec, PointExt};

verus! {

/// Distance below which a read-back position still counts as the one the
/// engine commanded; absorbs device-read jitter during a move.
pub const AUTO_PAUSE_TOLERANCE: i64 = 50;

/// Distance below which the device counts as holding steady while the pause
/// controller waits out its interval.
pub const PAUSE_RESET_TOLERANCE: i64 = 100;

/// The outcome of a move operation: the device either appeared busy with
/// genuine use, or the underlying device interface failed.
#[derive(Clone, Copy, PartialEq, Eq, Structural, Debug)]
pub enum MouseError {
    /// The device appears to be in active use; recoverable, handled by the
    /// pause controller.
    Busy,
    /// A position query or move command failed at the device boundary;
    /// fatal for the run.
    InternalError,
}

impl MouseError {
    /// The human-readable description the error is reported with.
    pub fn message(&self) -> (m: String)
        ensures
            *self is Busy ==> m@ == "mouse was in use"@,
            *self is InternalError ==> m@ == "internal error"@,
    {
        match self {
            MouseError::Busy => "mouse was in use".to_owned(),
            MouseError::InternalError => "internal error".to_owned(),
        }
    }
}

/// A decoded user command.
#[derive(Clone, Copy, PartialEq, Eq, Structural, Debug)]
pub enum KeyCommand {
    Quit,
    ToggleAnimate,
    TogglePause,
    NoSignal,
    Unknown,
}

/// Maps a pressed character key to its command: `q` quits, `p` toggles the
/// pause, `a` toggles animation, and control-C quits; any other plain
/// character skips an iteration, any other control chord is ignored.
pub fn decode_key(c: char, ctrl: bool) -> (k: KeyCommand)
    ensures
        ctrl ==> k == if c == 'c' {
            KeyCommand::Quit
        } else {
            KeyCommand::NoSignal
        },
        !ctrl ==> k == if c == 'q' {
            KeyCommand::Quit
        } else if c == 'p' {
            KeyCommand::TogglePause
        } else if c == 'a' {
            KeyCommand::ToggleAnimate
        } else {
            KeyCommand::Unknown
        },
{
    if ctrl {
        if c == 'c' {
            KeyCommand::Quit
        } else {
            KeyCommand::NoSignal
        }
    } else if c == 'q' {
        KeyCommand::Quit
    } else if c == 'p' {
        KeyCommand::TogglePause
    } else if c == 'a' {
        KeyCommand::ToggleAnimate
    } else {
        KeyCommand::Unknown
    }
}

/// Duration of one animation frame in milliseconds: `1000 / fps`, rounded
/// to the nearest integer.
pub fn frame_period_ms(fps: u32) -> (r: u64)
    requires
        fps >= 1,
    ensures
        r == round_div(1000, fps as int),
{
    (2000 + fps as u64) / (2 * fps as u64)
}

/// Animation progress after `elapsed_ms` of an `interval_ms`-long move, as
/// a fixed-point value on [`SCALE`]: the rounded ratio, clamped to full
/// progress.
pub open spec fn progress_spec(elapsed_ms: int, interval_ms: int) -> int
    recommends
        interval_ms > 0,
{
    clamp_progress(round_div(elapsed_ms * (SCALE as int), interval_ms))
}

/// Computes the fixed-point animation progress of an ongoing move.
pub fn progress(elapsed_ms: u64, interval_ms: u64) -> (t: i64)
    requires
        interval_ms > 0,
    ensures
        t == progress_spec(elapsed_ms as int, interval_ms as int),
        0 <= t <= SCALE,
{
    proof {
        assert(elapsed_ms * (SCALE as int) <= 0xFFFFFFFFFFFFFFFF * 1000) by (nonlinear_arith)
            requires elapsed_ms <= 0xFFFFFFFFFFFFFFFF;
    }
    let num: u128 = elapsed_ms as u128 * SCALE as u128;
    let q: u128 = (2 * num + interval_ms as u128) / (2 * interval_ms as u128);
    proof {
        assert(q == round_div(num as int, interval_ms as int));
    }
    if q > SCALE as u128 {
        SCALE
    } else {
        proof {
            lemma_progress_nonneg(num as int, interval_ms as int);
        }
        q as i64
    }
}

proof fn lemma_progress_nonneg(num: int, den: int)
    requires
        num >= 0,
        den > 0,
    ensures
        round_div(num, den) >= 0,
{
    assert((2 * num + den) / (2 * den) >= 0) by (nonlinear_arith)
        requires num >= 0 && den > 0;
}

/// What a single animation frame decides, before any device command is
/// issued in that frame.
#[derive(Clone, Copy, PartialEq, Eq, Structural, Debug)]
pub enum FrameDecision {
    /// The device moved away from the last commanded position by at least
    /// the tolerance: abort the whole move, yielding to the user.
    Busy,
    /// Command the device to this interpolated position.
    Command(PointExt),
    /// The interpolated position equals the last commanded one; no device
    /// command this frame.
    Hold,
}

/// Ephemeral per-move animation state: created when a move starts,
/// discarded when it ends.
#[derive(Clone, Copy, PartialEq, Eq, Structural, Debug)]
pub struct MoveState {
    /// Where the device was when the move started.
    pub start: PointExt,
    /// The last position the engine commanded (or observed after
    /// commanding).
    pub last_pos: PointExt,
    /// Animation time spent so far, in milliseconds.
    pub elapsed_ms: u64,
}

impl MoveState {
    /// Starts a move at the given device position.
    pub fn begin(start: PointExt) -> (s: Self)
        ensures
            s.start == start,
            s.last_pos == start,
            s.elapsed_ms == 0,
    {
        Self { start, last_pos: start, elapsed_ms: 0 }
    }

    /// The position a frame at the current progress interpolates to, easing
    /// from the start of the move towards `target`.
    pub open spec fn frame_target_spec(self, interval_ms: int, target: PointExt) -> PointExt {
        let eased = ease_in_out_spec(progress_spec(self.elapsed_ms as int, interval_ms));
        PointExt {
            x: lerp_spec(self.start.x as int, target.x as int, eased) as i32,
            y: lerp_spec(self.start.y as int, target.y as int, eased) as i32,
        }
    }

    /// At the start of a move the frame interpolant is the start position
    /// itself: easing shapes the velocity of a move, never its endpoints.
    pub proof fn lemma_frame_starts_at_start(self, interval_ms: int, target: PointExt)
        requires
            interval_ms > 0,
            self.elapsed_ms == 0,
        ensures
            self.frame_target_spec(interval_ms, target) == self.start,
    {
        assert(0 * (SCALE as int) == 0) by (nonlinear_arith);
        animation::lemma_round_div_exact(0, interval_ms);
        animation::lemma_ease_in_out_endpoints();
        animation::lemma_round_div_exact(0, SCALE as int);
        assert((target.x - self.start.x) * 0 == 0) by (nonlinear_arith);
        assert((target.y - self.start.y) * 0 == 0) by (nonlinear_arith);
    }

    /// Once the whole interval has elapsed, the frame interpolant is the
    /// target itself: an uninterrupted move ends exactly at its target.
    pub proof fn lemma_frame_ends_at_target(self, interval_ms: int, target: PointExt)
        requires
            interval_ms > 0,
            self.elapsed_ms >= interval_ms,
        ensures
            self.frame_target_spec(interval_ms, target) == target,
    {
        let e = self.elapsed_ms as int;
        let s = SCALE as int;
        assert(s * interval_ms <= e * s) by (nonlinear_arith)
            requires interval_ms > 0 && e >= interval_ms && s > 0;
        assert(e * s <= (e * s) * interval_ms) by (nonlinear_arith)
            requires interval_ms > 0 && e >= 0 && s > 0;
        animation::lemma_round_div_bounds(e * s, interval_ms, s, e * s);
        assert(progress_spec(e, interval_ms) == s);
        animation::lemma_ease_in_out_endpoints();
        animation::lemma_round_div_exact(target.x - self.start.x, s);
        animation::lemma_round_div_exact(target.y - self.start.y, s);
    }

    /// Decides one animation frame, given the position `curr` just read
    /// from the device.  With auto-pause on, a device seen away from the
    /// last commanded position means someone else is using it: the move is
    /// aborted as busy.  Otherwise the frame interpolates towards `target`
    /// and commands the device only when the position would change.  With
    /// auto-pause off the decision is never `Busy`.
    pub fn frame_decision(&self, cfg: &Config, target: PointExt, curr: PointExt) -> (d:
        FrameDecision)
        requires
            cfg.wf(),
        ensures
            d is Busy <==> cfg.auto_pause && !is_near_spec(
                self.last_pos,
                curr,
                AUTO_PAUSE_TOLERANCE as int,
            ),
            !cfg.auto_pause ==> !(d is Busy),
            !(d is Busy) ==> {
                let p = self.frame_target_spec(cfg.interval_ms as int, target);
                if p == self.last_pos {
                    d is Hold
                } else {
                    d == FrameDecision::Command(p)
                }
            },
    {
        if cfg.auto_pause && !self.last_pos.is_near(curr, AUTO_PAUSE_TOLERANCE) {
            return FrameDecision::Busy;
        }
        let t = progress(self.elapsed_ms, cfg.interval_ms);
        let eased = animation::ease_in_out(t);
        let new_pos = PointExt::lerp(self.start, target, eased);
        if new_pos.x == self.last_pos.x && new_pos.y == self.last_pos.y {
            FrameDecision::Hold
        } else {
            FrameDecision::Command(new_pos)
        }
    }

    /// Whether the move has run for its whole interval.
    pub fn finished(&self, cfg: &Config) -> (r: bool)
        ensures
            r == (self.elapsed_ms >= cfg.interval_ms),
    {
        self.elapsed_ms >= cfg.interval_ms
    }

    /// Records the position read back from the device after a commanded
    /// move.
    pub fn note_command(&mut self, observed: PointExt)
        ensures
            final (self).last_pos == observed,
            final (self).start == old(self).start,
            final (self).elapsed_ms == old(self).elapsed_ms,
    {
        self.last_pos = observed;
    }

    /// Accounts for one frame's worth of wall-clock time (saturating).
    pub fn advance(&mut self, dt_ms: u64)
        ensures
            final (self).elapsed_ms == if old(self).elapsed_ms + dt_ms <= u64::MAX {
                old(self).elapsed_ms + dt_ms
            } else {
                u64::MAX as int
            },
            final (self).start == old(self).start,
            final (self).last_pos == old(self).last_pos,
    {
        if dt_ms <= u64::MAX - self.elapsed_ms {
            self.elapsed_ms = self.elapsed_ms + dt_ms;
        } else {
            self.elapsed_ms = u64::MAX;
        }
    }
}

/// Decides the outcome of a non-animated ("placed") move after the wait:
/// busy exactly when auto-pause is on and the device has strayed from the
/// commanded target by at least the tolerance.  Never raises busy with
/// auto-pause off, and never reports a device failure itself.
pub fn place_outcome(cfg: &Config, target: PointExt, post_pos: PointExt) -> (r: Result<
    (),
    MouseError,
>)
    ensures
        r matches Err(e) ==> e is Busy,
        r is Err <==> cfg.auto_pause && !is_near_spec(post_pos, target, AUTO_PAUSE_TOLERANCE as int),
        !cfg.auto_pause ==> r is Ok,
{
    if cfg.auto_pause && !post_pos.is_near(target, AUTO_PAUSE_TOLERANCE) {
        Err(MouseError::Busy)
    } else {
        Ok(())
    }
}

/// What one pause tick decides.
#[derive(Clone, Copy, PartialEq, Eq, Structural, Debug)]
pub enum PauseStep {
    /// The device held steady for the whole pause interval; the pause is
    /// over.
    Done,
    /// A user signal arrived; the caller should stop pausing (and treat
    /// the signal as a request to wind down).
    Cancelled,
    /// The device moved: the countdown restarted from zero and the anchor
    /// was refreshed to the new position.
    Reset,
    /// Nothing changed; keep waiting.
    Tick,
}

/// The adaptive pause controller: waits out `pause_interval_ms` of steady
/// device position, restarting the countdown whenever the device moves
/// away from the anchor by at least [`PAUSE_RESET_TOLERANCE`].
#[derive(Clone, Copy, PartialEq, Eq, Structural, Debug)]
pub struct PauseCtl {
    /// How long the device must hold steady, in milliseconds.
    pub pause_interval_ms: u64,
    /// The last observed resting position of the device.
    pub anchor: PointExt,
    /// How much steady time has accumulated, in milliseconds.
    pub elapsed_ms: u64,
}

impl PauseCtl {
    /// Milliseconds of steady time still owed before the pause completes.
    pub open spec fn remaining_spec(self) -> int {
        if self.elapsed_ms <= self.pause_interval_ms {
            self.pause_interval_ms - self.elapsed_ms
        } else {
            0
        }
    }

    /// Starts a pause anchored at the current device position.
    pub fn start(pause_interval_ms: u64, anchor: PointExt) -> (c: Self)
        ensures
            c.pause_interval_ms == pause_interval_ms,
            c.anchor == anchor,
            c.elapsed_ms == 0,
            c.remaining_spec() == pause_interval_ms,
    {
        Self { pause_interval_ms, anchor, elapsed_ms: 0 }
    }

    /// Milliseconds of steady time still owed.
    pub fn remaining_ms(&self) -> (r: u64)
        ensures
            r == self.remaining_spec(),
    {
        if self.elapsed_ms <= self.pause_interval_ms {
            self.pause_interval_ms - self.elapsed_ms
        } else {
            0
        }
    }

    /// Decides one pause tick from the freshly read device position and
    /// whether a user signal is pending.  The countdown is over once the
    /// accumulated steady time exceeds the pause interval; a pending signal
    /// cancels the pause; a device seen away from the anchor restarts the
    /// countdown from zero with the full interval owed again and the anchor
    /// moved to the new position; otherwise the controller just keeps
    /// waiting.
    pub fn step(&mut self, curr: PointExt, signal_pending: bool) -> (s: PauseStep)
        ensures
            old(self).elapsed_ms > old(self).pause_interval_ms ==> s is Done && *final (self)
                == *old(self),
            old(self).elapsed_ms <= old(self).pause_interval_ms && signal_pending ==> s
                is Cancelled && *final (self) == *old(self),
            old(self).elapsed_ms <= old(self).pause_interval_ms && !signal_pending
                && !is_near_spec(old(self).anchor, curr, PAUSE_RESET_TOLERANCE as int) ==> {
                &&& s is Reset
                &&& final (self).elapsed_ms == 0
                &&& final (self).anchor == curr
                &&& final (self).pause_interval_ms == old(self).pause_interval_ms
                &&& final (self).remaining_spec() == old(self).pause_interval_ms
            },
            old(self).elapsed_ms <= old(self).pause_interval_ms && !signal_pending && is_near_spec(
                old(self).anchor,
                curr,
                PAUSE_RESET_TOLERANCE as int,
            ) ==> s is Tick && *final (self) == *old(self),
    {
        if self.elapsed_ms > self.pause_interval_ms {
            return PauseStep::Done;
        }
        if signal_pending {
            return PauseStep::Cancelled;
        }
        if !self.anchor.is_near(curr, PAUSE_RESET_TOLERANCE) {
            self.anchor = curr;
            self.elapsed_ms = 0;
            return PauseStep::Reset;
        }
        PauseStep::Tick
    }

    /// Accounts for steady waiting time (saturating).
    pub fn advance(&mut self, dt_ms: u64)
        ensures
            final (self).elapsed_ms == if old(self).elapsed_ms + dt_ms <= u64::MAX {
                old(self).elapsed_ms + dt_ms
            } else {
                u64::MAX as int
            },
            final (self).anchor == old(self).anchor,
            final (self).pause_interval_ms == old(self).pause_interval_ms,
    {
        if dt_ms <= u64::MAX - self.elapsed_ms {
            self.elapsed_ms = self.elapsed_ms + dt_ms;
        } else {
            self.elapsed_ms = u64::MAX;
        }
    }
}

} // verus!
