//! Run configuration, validated once at startup.

use vstd::prelude::*;

use crate::bounds::Bounds;

verus! {

/// A configuration problem, reported once at startup; the run never starts
/// with an invalid configuration.
#[derive(Clone, Copy, PartialEq, Eq, Structural, Debug)]
pub enum ConfigError {
    /// The bounds admit at most one distinct point (or a negative relative
    /// span), so no movement could ever be produced.
    EmptyBounds,
    /// The interval between movements must be positive.
    NonPositiveInterval,
    /// The animation frame rate must be positive.
    NonPositiveFps,
    /// The frame rate does not fit the supported range.
    FpsOutOfRange,
    /// The interval is too long to be represented in milliseconds.
    IntervalOutOfRange,
    /// The input could not be read as a number at all.
    InvalidNumber,
}

impl ConfigError {
    /// The human-readable description the error is reported with.
    pub fn message(&self) -> (m: String)
        ensures
            *self is EmptyBounds ==> m@ == "bounds will result in no mouse movement"@,
            *self is NonPositiveInterval ==> m@ == "interval must be a positive number"@,
            *self is NonPositiveFps ==> m@ == "fps must be a positive number"@,
            *self is FpsOutOfRange ==> m@ == "fps must be between 1 and 4294967295"@,
            *self is IntervalOutOfRange ==> m@ == "interval is too large"@,
            *self is InvalidNumber ==> m@ == "could not parse input as a number"@,
    {
        match self {
            ConfigError::EmptyBounds => "bounds will result in no mouse movement".to_owned(),
            ConfigError::NonPositiveInterval => "interval must be a positive number".to_owned(),
            ConfigError::NonPositiveFps => "fps must be a positive number".to_owned(),
            ConfigError::FpsOutOfRange => "fps must be between 1 and 4294967295".to_owned(),
            ConfigError::IntervalOutOfRange => "interval is too large".to_owned(),
            ConfigError::InvalidNumber => "could not parse input as a number".to_owned(),
        }
    }
}

/// Immutable run configuration.  Durations are integer milliseconds.  The
/// only field mutated after construction is `animate`, toggled by an
/// explicit user command.
#[derive(Clone, Copy, PartialEq, Eq, Structural, Debug)]
pub struct Config {
    /// Animation duration per move, in milliseconds.
    pub interval_ms: u64,
    /// How long to wait after busy detection, in milliseconds.
    pub pause_interval_ms: u64,
    /// Target animation frames per second.
    pub fps: u32,
    /// Where sampled target points may fall.
    pub bounds: Bounds,
    /// Animate moves frame by frame rather than placing the cursor.
    pub animate: bool,
    /// Yield to genuine use of the device rather than overriding it.
    pub auto_pause: bool,
}

impl Config {
    /// What construction establishes and every later step preserves.
    pub open spec fn wf(self) -> bool {
        &&& self.interval_ms > 0
        &&& self.fps > 0
        &&& self.bounds.wf()
        &&& !self.bounds.has_empty_range_spec()
    }

    /// Validates and assembles a configuration.  The pause interval
    /// defaults to the movement interval when not given.  Rejected are, in
    /// this order: bounds that admit no movement, a zero interval, and a
    /// zero frame rate.
    pub fn new(
        interval_ms: u64,
        pause_interval_ms: Option<u64>,
        fps: u32,
        bounds: Bounds,
        animate: bool,
        auto_pause: bool,
    ) -> (r: Result<Config, ConfigError>)
        ensures
            r is Ok <==> bounds.wf() && !bounds.has_empty_range_spec() && interval_ms > 0 && fps
                > 0,
            r matches Ok(c) ==> {
                &&& c.wf()
                &&& c.interval_ms == interval_ms
                &&& c.pause_interval_ms == if pause_interval_ms is Some {
                    pause_interval_ms->0
                } else {
                    interval_ms
                }
                &&& c.fps == fps
                &&& c.bounds == bounds
                &&& c.animate == animate
                &&& c.auto_pause == auto_pause
            },
            r matches Err(e) ==> if !bounds.wf() || bounds.has_empty_range_spec() {
                e is EmptyBounds
            } else if interval_ms == 0 {
                e is NonPositiveInterval
            } else {
                e is NonPositiveFps
            },
    {
        let bounds_ok = match bounds {
            Bounds::Rect { .. } => true,
            Bounds::Relative { dx, dy } => dx >= 0 && dy >= 0,
        };
        if !bounds_ok || bounds.has_empty_range() {
            return Err(ConfigError::EmptyBounds);
        }
        if interval_ms == 0 {
            return Err(ConfigError::NonPositiveInterval);
        }
        if fps == 0 {
            return Err(ConfigError::NonPositiveFps);
        }
        let pause = match pause_interval_ms {
            Some(p) => p,
            None => interval_ms,
        };
        Ok(Config { interval_ms, pause_interval_ms: pause, fps, bounds, animate, auto_pause })
    }

    /// Flips the animate flag; everything else is untouched.
    pub fn toggle_animate(&mut self)
        ensures
            final (self).animate == !old(self).animate,
            final (self).interval_ms == old(self).interval_ms,
            final (self).pause_interval_ms == old(self).pause_interval_ms,
            final (self).fps == old(self).fps,
            final (self).bounds == old(self).bounds,
            final (self).auto_pause == old(self).auto_pause,
    {
        self.animate = !self.animate;
    }
}

} // verus!
