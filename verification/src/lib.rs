//! Motion engine for a cursor-activity keeper.
//!
//! The library holds the verified core: the bounded random point sampler,
//! the fixed-point easing curve, the frame-by-frame animation decisions,
//! the busy-detection predicate and the adaptive pause controller.  The
//! unverified shell around it (terminal rendering, device access, real
//! sleeping) drives these decisions from an ordinary event loop.

pub mod animation;
pub mod bounds;
pub mod config;
pub mod engine;
pub mod parse;
pub mod point;
pub mod sampler;
