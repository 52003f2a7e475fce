//! Configuration constants of the playfield and the simulation.
//!
//! Positions are in milliunits, velocities in milliunits per millisecond,
//! times in milliseconds.

use vstd::prelude::*;

verus! {

/// Left edge of the playfield; a ball further left concedes a point.
pub const LEFT_EDGE: i64 = -650_000;
/// Right edge of the playfield.
pub const RIGHT_EDGE: i64 = 650_000;
/// Bottom wall; the ball bounces off it.
pub const BOTTOM_WALL: i64 = -350_000;
/// Top wall; the ball bounces off it.
pub const TOP_WALL: i64 = 350_000;

/// Horizontal distance of each paddle's center from its edge.
pub const PADDLE_MARGIN: i64 = 72_000;
/// Half the paddle's horizontal extent.
pub const PADDLE_HALF_WIDTH: i64 = 10_000;
/// Half the paddle's vertical extent.
pub const PADDLE_HALF_HEIGHT: i64 = 60_000;
/// Paddle speed under a held key, in milliunits per millisecond.
pub const PADDLE_SPEED: i64 = 500;

/// Radius of the ball's collision circle.
pub const BALL_RADIUS: i64 = 8_000;
/// Target magnitude of the ball's velocity, held constant across bounces.
pub const BALL_SPEED: i64 = 700;

/// Spin factor 1/2: how much an off-center paddle hit redirects the ball.
pub const SPIN_FACTOR_NUMER: i64 = 1;
/// Denominator of the spin factor.
pub const SPIN_FACTOR_DENOM: i64 = 2;

/// Square of the tangent of the maximum bounce angle (60 degrees from
/// the horizontal axis): a velocity obeys the angle bound when
/// `y * y <= MAX_ANGLE_TAN_SQ * x * x`.
pub const MAX_ANGLE_TAN_SQ: i64 = 3;

/// Allowed deviation of the squared speed from `BALL_SPEED * BALL_SPEED`
/// after a bounce: the fixed-point analogue of floating-point tolerance.
/// It keeps the speed within about one percent of `BALL_SPEED`.
pub const SPEED_SQ_TOLERANCE: i64 = 10_000;

/// Largest time delta, in milliseconds, a single tick accepts.
pub const DT_LIMIT: i64 = 100_000;
/// Largest position magnitude the integrator accepts; keeps the
/// integration step well inside `i64`.
pub const POSITION_LIMIT: i64 = 1_000_000_000_000_000;
/// Largest velocity-component magnitude the integrator accepts.
pub const VELOCITY_LIMIT: i64 = 1_000_000;
/// Largest distance one integration step can cover.
pub const POSITION_DRIFT_LIMIT: i64 = VELOCITY_LIMIT * DT_LIMIT;

} // verus!
