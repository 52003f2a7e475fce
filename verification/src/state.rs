//! The whole game state and the two passes that drive it: the fixed
//! tick (integration, input, collisions) and the variable-rate update
//! pass (the round state machine).

use vstd::prelude::*;

use crate::components::{
    initial_ball, paddle_home_x, Ball, InputState, Paddle, Player, Vec2, Velocity,
};
use crate::constants::{
    DT_LIMIT, LEFT_EDGE, PADDLE_MARGIN, POSITION_DRIFT_LIMIT, POSITION_LIMIT, RIGHT_EDGE,
};
use crate::events::Scored;
use crate::fixed_update::{
    check_for_collisions, collision_outcome, handle_input, handle_velocity, moved_paddle_y,
};
use crate::resources::{Paused, Score};
use crate::update::{credited_score, handle_scored};

verus! {

/// The complete state of one session: the ball, the two paddles, the
/// score pair, the pause flag, and the single-slot queue of scoring
/// notifications passed from the fixed tick to the update pass.
#[derive(Clone, Copy, Debug, PartialEq, Eq, Structural)]
pub struct GameState {
    pub ball: Ball,
    pub left_paddle: Paddle,
    pub right_paddle: Paddle,
    pub score: Score,
    pub paused: Paused,
    pub pending: Option<Scored>,
}

/// The state every session starts from: ball served from the center,
/// paddles centered on their home columns, no points, paused.
pub open spec fn initial_state() -> GameState {
    GameState {
        ball: initial_ball(),
        left_paddle: Paddle {
            side: Player::Left,
            pos: Vec2 { x: (LEFT_EDGE + PADDLE_MARGIN) as i64, y: 0 },
        },
        right_paddle: Paddle {
            side: Player::Right,
            pos: Vec2 { x: (RIGHT_EDGE - PADDLE_MARGIN) as i64, y: 0 },
        },
        score: Score(0, 0),
        paused: Paused(true),
        pending: None,
    }
}

impl GameState {
    /// Well-formed: both paddles sit on their home columns inside the
    /// walls, and the ball obeys the in-play velocity invariant.
    pub open spec fn wf(self) -> bool {
        &&& self.ball.wf()
        &&& self.left_paddle.wf()
        &&& self.right_paddle.wf()
        &&& self.left_paddle.side == Player::Left
        &&& self.right_paddle.side == Player::Right
    }

    /// The ball is far enough from the integrator's working range that
    /// one tick cannot leave it.
    pub open spec fn ball_in_working_range(self) -> bool {
        &&& -POSITION_LIMIT + POSITION_DRIFT_LIMIT <= self.ball.pos.x <= POSITION_LIMIT
            - POSITION_DRIFT_LIMIT
        &&& -POSITION_LIMIT + POSITION_DRIFT_LIMIT <= self.ball.pos.y <= POSITION_LIMIT
            - POSITION_DRIFT_LIMIT
    }

    /// Builds the starting state of a session.
    pub fn new() -> (s: GameState)
        ensures
            s == initial_state(),
            s.wf(),
            s.ball_in_working_range(),
    {
        let s = GameState {
            ball: Ball {
                pos: Vec2 { x: 0, y: 0 },
                vel: Velocity(Vec2 { x: crate::constants::BALL_SPEED, y: 0 }),
            },
            left_paddle: Paddle {
                side: Player::Left,
                pos: Vec2 { x: LEFT_EDGE + PADDLE_MARGIN, y: 0 },
            },
            right_paddle: Paddle {
                side: Player::Right,
                pos: Vec2 { x: RIGHT_EDGE - PADDLE_MARGIN, y: 0 },
            },
            score: Score(0, 0),
            paused: Paused(true),
            pending: None,
        };
        proof {
            assert(s.ball.vel.0.x * s.ball.vel.0.x + s.ball.vel.0.y * s.ball.vel.0.y
                == 490_000 && s.ball.vel.0.y * s.ball.vel.0.y <= 3 * (s.ball.vel.0.x
                * s.ball.vel.0.x)) by (nonlinear_arith)
                requires
                    s.ball.vel.0.x == 700 && s.ball.vel.0.y == 0,
            ;
        }
        s
    }
}

/// The ball after one integration step: moved by `velocity * dt`
/// unless paused.
pub open spec fn integrated_ball(b: Ball, paused: bool, dt: int) -> Ball {
    if paused {
        b
    } else {
        Ball {
            pos: Vec2 {
                x: (b.pos.x + b.vel.0.x * dt) as i64,
                y: (b.pos.y + b.vel.0.y * dt) as i64,
            },
            vel: b.vel,
        }
    }
}

/// One paddle after the input pass.
pub open spec fn input_moved_paddle(p: Paddle, up: bool, down: bool, paused: bool, dt: int) -> Paddle {
    if paused {
        p
    } else {
        Paddle { side: p.side, pos: Vec2 { x: p.pos.x, y: moved_paddle_y(p.pos.y as int, up, down, dt) as i64 } }
    }
}

/// The state after one fixed tick: integration, then input, then,
/// when the tick started in play, the collision pass, whose scoring
/// notification fills the queue slot only if the slot was free.
/// A tick that starts paused changes nothing but the pause flag,
/// which the serve action clears.
pub open spec fn tick_spec(s: GameState, input: InputState, dt: int) -> GameState {
    let paused0 = s.paused.0;
    let ball1 = integrated_ball(s.ball, paused0, dt);
    let paused1 = if paused0 { Paused(!input.serve_just_pressed) } else { s.paused };
    let left1 = input_moved_paddle(s.left_paddle, input.left_up, input.left_down, paused0, dt);
    let right1 = input_moved_paddle(s.right_paddle, input.right_up, input.right_down, paused0, dt);
    if paused0 {
        GameState { paused: paused1, ..s }
    } else {
        let (vel2, who) = collision_outcome(ball1, left1, right1);
        let ball2 = Ball { pos: ball1.pos, vel: vel2 };
        let pending2 = if s.pending is Some {
            s.pending
        } else {
            match who {
                Some(p) => Some(Scored { player: p }),
                None => None,
            }
        };
        GameState {
            ball: ball2,
            left_paddle: left1,
            right_paddle: right1,
            score: s.score,
            paused: paused1,
            pending: pending2,
        }
    }
}

/// One fixed tick: the integrator, the input system, and, for a tick
/// that started in play, the collision system, in that order, so the
/// collision pass sees the positions of the same tick. Positions and
/// the ball's velocity never change on a tick that starts paused; in
/// play, the ball's position advances by exactly `velocity * dt`.
pub fn fixed_tick(state: &mut GameState, input: &InputState, dt: i64)
    requires
        0 <= dt <= DT_LIMIT,
        old(state).wf(),
        old(state).ball_in_working_range(),
    ensures
        *final(state) == tick_spec(*old(state), *input, dt as int),
        final(state).wf(),
        old(state).paused.0 ==> final(state).ball == old(state).ball
            && final(state).left_paddle == old(state).left_paddle
            && final(state).right_paddle == old(state).right_paddle
            && final(state).score == old(state).score
            && final(state).pending == old(state).pending
            && final(state).paused.0 == !input.serve_just_pressed,
        !old(state).paused.0 ==> final(state).ball.pos.x == old(state).ball.pos.x + old(
            state,
        ).ball.vel.0.x * dt && final(state).ball.pos.y == old(state).ball.pos.y + old(
            state,
        ).ball.vel.0.y * dt,
        final(state).score == old(state).score,
{
    let was_paused = state.paused.0;
    proof {
        crate::utils::lemma_velocity_component_bounds(state.ball.vel.0);
    }
    handle_velocity(&mut state.ball, &state.paused, dt);
    handle_input(
        &mut state.paused,
        &mut state.left_paddle,
        &mut state.right_paddle,
        input,
        dt,
    );
    if !was_paused {
        let scored = check_for_collisions(
            &mut state.ball,
            &state.left_paddle,
            &state.right_paddle,
        );
        if state.pending.is_none() {
            state.pending = scored;
        }
    }
}

/// One pass of the round state machine, as the variable-rate update
/// cadence runs it: consumes at most one pending scoring notification
/// as `handle_scored` describes.
pub fn update_tick(state: &mut GameState)
    requires
        old(state).pending == Some(Scored { player: Player::Left }) ==> old(state).score.0
            < u32::MAX,
        old(state).pending == Some(Scored { player: Player::Right }) ==> old(state).score.1
            < u32::MAX,
    ensures
        old(state).pending is None ==> *final(state) == *old(state),
        old(state).pending is Some ==> *final(state) == (GameState {
            ball: initial_ball(),
            left_paddle: Paddle {
                side: old(state).left_paddle.side,
                pos: Vec2 { x: old(state).left_paddle.pos.x, y: 0 },
            },
            right_paddle: Paddle {
                side: old(state).right_paddle.side,
                pos: Vec2 { x: old(state).right_paddle.pos.x, y: 0 },
            },
            score: credited_score(old(state).score, old(state).pending->Some_0.player),
            paused: Paused(true),
            pending: None,
        }),
        old(state).wf() ==> final(state).wf(),
        final(state).score.0 >= old(state).score.0 && final(state).score.1 >= old(
            state,
        ).score.1,
{
    handle_scored(
        &mut state.pending,
        &mut state.score,
        &mut state.paused,
        &mut state.ball,
        &mut state.left_paddle,
        &mut state.right_paddle,
    );
}

} // verus!
