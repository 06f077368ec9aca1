//! An in-memory pool of upstream credentials: a registry keyed by id, a
//! health state machine with cooldown and permanent disabling, and a load
//! balancer that picks among the credentials that may be used right now.
//! Beside the pool stands the one kind of request that is routed through
//! it here, image generation, as a state machine over the pool.
//!
//! Every operation takes the current time as an argument, so the library
//! never reads a clock; timestamps and durations share one unit chosen by
//! the caller. The same goes for chance: a strategy that draws lots is
//! handed the draw.

pub mod credential;
pub mod image;
