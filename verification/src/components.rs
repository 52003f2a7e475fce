//! Entity state: the ball, the paddles, their velocities, and the
//! per-tick input snapshot, together with their well-formedness
//! predicates.

use vstd::prelude::*;

use crate::constants::{
    BALL_SPEED, BOTTOM_WALL, LEFT_EDGE, MAX_ANGLE_TAN_SQ, PADDLE_HALF_HEIGHT, PADDLE_MARGIN,
    POSITION_LIMIT, RIGHT_EDGE, SPEED_SQ_TOLERANCE, TOP_WALL,
};

verus! {

/// A two-dimensional fixed-point vector: milliunits for positions,
/// milliunits per millisecond for velocities.
#[derive(Clone, Copy, Debug, PartialEq, Eq, Structural)]
pub struct Vec2 {
    pub x: i64,
    pub y: i64,
}

impl Vec2 {
    /// The squared magnitude, as a mathematical integer.
    pub open spec fn norm_sq(self) -> int {
        self.x * self.x + self.y * self.y
    }
}

/// Which side a paddle defends, and which player a point goes to.
#[derive(Clone, Copy, Debug, PartialEq, Eq, Structural)]
pub enum Player {
    Left,
    Right,
}

/// A velocity attached to a moving entity.
#[derive(Clone, Copy, Debug, PartialEq, Eq, Structural)]
pub struct Velocity(pub Vec2);

/// A paddle: its side and the position of its center. Only the `y`
/// coordinate ever changes; `x` stays pinned to the side's home column.
#[derive(Clone, Copy, Debug, PartialEq, Eq, Structural)]
pub struct Paddle {
    pub side: Player,
    pub pos: Vec2,
}

/// The ball: the position of its center and its velocity.
#[derive(Clone, Copy, Debug, PartialEq, Eq, Structural)]
pub struct Ball {
    pub pos: Vec2,
    pub vel: Velocity,
}

/// The input snapshot for one tick: the held movement keys of each
/// player and the edge-triggered serve action.
#[derive(Clone, Copy, Debug, PartialEq, Eq, Structural)]
pub struct InputState {
    pub left_up: bool,
    pub left_down: bool,
    pub right_up: bool,
    pub right_down: bool,
    /// True only on the tick where the serve action goes from
    /// not-pressed to pressed.
    pub serve_just_pressed: bool,
}

/// The squared speed of a velocity deviates from the target squared
/// speed by at most the configured tolerance.
pub open spec fn speed_within_tolerance(v: Vec2) -> bool {
    BALL_SPEED * BALL_SPEED - SPEED_SQ_TOLERANCE <= v.norm_sq()
        <= BALL_SPEED * BALL_SPEED + SPEED_SQ_TOLERANCE
}

/// The velocity points no steeper than the maximum bounce angle from
/// the horizontal axis.
pub open spec fn angle_within_max(v: Vec2) -> bool {
    v.y * v.y <= MAX_ANGLE_TAN_SQ * (v.x * v.x)
}

/// The in-play invariant of the ball's velocity: near-constant speed
/// and a playable angle.
pub open spec fn ball_velocity_ok(v: Vec2) -> bool {
    speed_within_tolerance(v) && angle_within_max(v)
}

/// The fixed column a paddle's center is pinned to.
pub open spec fn paddle_home_x(side: Player) -> int {
    match side {
        Player::Left => LEFT_EDGE + PADDLE_MARGIN,
        Player::Right => RIGHT_EDGE - PADDLE_MARGIN,
    }
}

impl Paddle {
    /// Well-formed: centered on its home column, with its whole
    /// vertical extent inside the walls.
    pub open spec fn wf(self) -> bool {
        &&& self.pos.x == paddle_home_x(self.side)
        &&& BOTTOM_WALL + PADDLE_HALF_HEIGHT <= self.pos.y <= TOP_WALL - PADDLE_HALF_HEIGHT
    }
}

impl Ball {
    /// Well-formed: the velocity obeys the in-play invariant and the
    /// position is within the integrator's working range.
    pub open spec fn wf(self) -> bool {
        &&& ball_velocity_ok(self.vel.0)
        &&& -POSITION_LIMIT <= self.pos.x <= POSITION_LIMIT
        &&& -POSITION_LIMIT <= self.pos.y <= POSITION_LIMIT
    }
}

/// The ball as each round serves it: at the playfield center, moving
/// horizontally at the configured speed in the initial direction.
pub open spec fn initial_ball() -> Ball {
    Ball { pos: Vec2 { x: 0, y: 0 }, vel: Velocity(Vec2 { x: BALL_SPEED, y: 0 }) }
}

} // verus!
