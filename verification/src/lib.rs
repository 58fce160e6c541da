//! Core engine of a terminal snake game: a fixed-size grid with incremental
//! redraw bookkeeping, a snake that grows by eating apples, an apple manager,
//! and the per-tick movement / collision / feeding state machine.
//!
//! Terminal handling, key decoding and frame pacing live outside this crate;
//! the engine only consumes plain key values and a random number source.

pub mod apple;
pub mod board;
pub mod game;
pub mod geometry;
pub mod render;
mod rng;
pub mod snake;

use vstd::prelude::*;

verus! {

} // verus!
