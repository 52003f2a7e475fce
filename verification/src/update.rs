//! The round state machine, run on the variable-rate update cadence:
//! it consumes at most one scoring notification, credits the point,
//! resets the ball and the paddles, and re-arms the pause flag.

use vstd::prelude::*;

use crate::components::{initial_ball, Ball, Paddle, Player, Vec2, Velocity};
use crate::constants::BALL_SPEED;
use crate::events::Scored;
use crate::resources::{Paused, Score};

verus! {

/// The score after crediting one point to `player`.
pub open spec fn credited_score(score: Score, player: Player) -> Score {
    match player {
        Player::Left => Score((score.0 + 1) as u32, score.1),
        Player::Right => Score(score.0, (score.1 + 1) as u32),
    }
}

/// Consumes a pending scoring notification, if there is one: the
/// scorer's counter goes up by one, the ball returns to the center
/// with the initial serve velocity, both paddles re-center vertically,
/// the pause flag is set, and the notification slot is cleared. With
/// no pending notification, nothing changes.
pub fn handle_scored(
    pending: &mut Option<Scored>,
    score: &mut Score,
    paused: &mut Paused,
    ball: &mut Ball,
    left: &mut Paddle,
    right: &mut Paddle,
)
    requires
        *old(pending) == Some(Scored { player: Player::Left }) ==> old(score).0 < u32::MAX,
        *old(pending) == Some(Scored { player: Player::Right }) ==> old(score).1 < u32::MAX,
    ensures
        (*old(pending)) is None ==> *final(pending) == *old(pending) && *final(score) == *old(
            score,
        ) && *final(paused) == *old(paused) && *final(ball) == *old(ball) && *final(left)
            == *old(left) && *final(right) == *old(right),
        (*old(pending)) is Some ==> {
            &&& *final(pending) is None
            &&& *final(score) == credited_score(*old(score), (*old(pending))->Some_0.player)
            &&& final(paused).0
            &&& *final(ball) == initial_ball()
            &&& *final(left) == (Paddle {
                side: old(left).side,
                pos: Vec2 { x: old(left).pos.x, y: 0 },
            })
            &&& *final(right) == (Paddle {
                side: old(right).side,
                pos: Vec2 { x: old(right).pos.x, y: 0 },
            })
        },
        old(left).wf() ==> final(left).wf(),
        old(right).wf() ==> final(right).wf(),
        final(ball).wf() || *final(ball) == *old(ball),
        final(score).0 >= old(score).0 && final(score).1 >= old(score).1,
{
    match *pending {
        None => {},
        Some(event) => {
            paused.0 = true;
            ball.pos = Vec2 { x: 0, y: 0 };
            ball.vel = Velocity(Vec2 { x: BALL_SPEED, y: 0 });
            left.pos.y = 0;
            right.pos.y = 0;
            match event.player {
                Player::Left => {
                    score.0 = score.0 + 1;
                },
                Player::Right => {
                    score.1 = score.1 + 1;
                },
            }
            *pending = None;
            proof {
                assert(ball.vel.0.x * ball.vel.0.x + ball.vel.0.y * ball.vel.0.y == 490_000
                    && ball.vel.0.y * ball.vel.0.y <= 3 * (ball.vel.0.x * ball.vel.0.x))
                    by (nonlinear_arith)
                    requires
                        ball.vel.0.x == 700 && ball.vel.0.y == 0,
                ;
            }
        },
    }
}

} // verus!
