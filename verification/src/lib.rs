//! Gameplay simulation core of a two-paddle ball game.
//!
//! The library advances the ball and paddles each fixed tick, detects
//! collisions between the ball and the paddles or the playfield walls,
//! computes bounce responses with directional spin, and drives the
//! score / round-reset state machine.
//!
//! All quantities are fixed-point integers:
//! - positions are measured in milliunits (1/1000 of a world unit),
//! - velocities in milliunits per millisecond (numerically equal to
//!   world units per second),
//! - time deltas in milliseconds.
//!
//! So `position + velocity * dt` is exact integer arithmetic, and the
//! constant-speed and maximum-angle invariants of the bounce response
//! are stated and proved with an explicit integer tolerance.

pub mod components;
pub mod constants;
pub mod events;
pub mod fixed_update;
pub mod resources;
pub mod state;
pub mod update;
pub mod utils;
