//! The fixed-tick systems, in their per-tick order: motion
//! integration, input-driven paddle movement, then collision handling
//! and scoring.

use vstd::prelude::*;

use crate::components::{
    angle_within_max, speed_within_tolerance, Ball, InputState, Paddle, Player, Vec2,
    Velocity,
};
use crate::constants::{
    BALL_RADIUS, BOTTOM_WALL, DT_LIMIT, LEFT_EDGE, PADDLE_HALF_HEIGHT, PADDLE_HALF_WIDTH,
    PADDLE_SPEED, POSITION_DRIFT_LIMIT, POSITION_LIMIT, RIGHT_EDGE, TOP_WALL, VELOCITY_LIMIT,
};
use crate::events::Scored;
use crate::resources::Paused;
use crate::utils::{
    bounce_spec, clamp_i64, clamp_int, lemma_velocity_component_bounds, paddle_bounce,
};

verus! {

/// Advances the ball by `velocity * dt` unless the game is paused.
/// Purely deterministic; positions move by exactly the velocity times
/// the elapsed milliseconds.
pub fn handle_velocity(ball: &mut Ball, paused: &Paused, dt: i64)
    requires
        0 <= dt <= DT_LIMIT,
        -POSITION_LIMIT <= old(ball).pos.x <= POSITION_LIMIT,
        -POSITION_LIMIT <= old(ball).pos.y <= POSITION_LIMIT,
        -VELOCITY_LIMIT <= old(ball).vel.0.x <= VELOCITY_LIMIT,
        -VELOCITY_LIMIT <= old(ball).vel.0.y <= VELOCITY_LIMIT,
    ensures
        paused.0 ==> *final(ball) == *old(ball),
        !paused.0 ==> final(ball).pos.x == old(ball).pos.x + old(ball).vel.0.x * dt,
        !paused.0 ==> final(ball).pos.y == old(ball).pos.y + old(ball).vel.0.y * dt,
        final(ball).vel == old(ball).vel,
        old(ball).pos.x - POSITION_DRIFT_LIMIT <= final(ball).pos.x <= old(ball).pos.x
            + POSITION_DRIFT_LIMIT,
        old(ball).pos.y - POSITION_DRIFT_LIMIT <= final(ball).pos.y <= old(ball).pos.y
            + POSITION_DRIFT_LIMIT,
{
    if !paused.0 {
        assert(-100_000_000_000 <= ball.vel.0.x * dt <= 100_000_000_000
            && -100_000_000_000 <= ball.vel.0.y * dt <= 100_000_000_000)
            by (nonlinear_arith)
            requires
                0 <= dt <= 100_000,
                -1_000_000 <= ball.vel.0.x <= 1_000_000,
                -1_000_000 <= ball.vel.0.y <= 1_000_000,
        ;
        let dx: i64 = ball.vel.0.x * dt;
        let dy: i64 = ball.vel.0.y * dt;
        ball.pos.x = ball.pos.x + dx;
        ball.pos.y = ball.pos.y + dy;
    }
}

/// Where a paddle's center ends up after one tick of input: no keys or
/// both keys cancel to no movement; a single held key moves the paddle
/// by the paddle speed times the elapsed time, clamped so its vertical
/// extent stays inside the walls.
pub open spec fn moved_paddle_y(y: int, up: bool, down: bool, dt: int) -> int {
    if up == down {
        y
    } else {
        let target = if up {
            y + PADDLE_SPEED * dt
        } else {
            y - PADDLE_SPEED * dt
        };
        clamp_int(target, BOTTOM_WALL + PADDLE_HALF_HEIGHT, TOP_WALL - PADDLE_HALF_HEIGHT)
    }
}

/// Moves one paddle per its two held keys, clamped to the playfield.
fn move_paddle(paddle: &mut Paddle, up: bool, down: bool, dt: i64)
    requires
        0 <= dt <= DT_LIMIT,
        old(paddle).wf(),
    ensures
        final(paddle).side == old(paddle).side,
        final(paddle).pos.x == old(paddle).pos.x,
        final(paddle).pos.y as int == moved_paddle_y(old(paddle).pos.y as int, up, down, dt as int),
        final(paddle).wf(),
{
    if up != down {
        let step: i64 = PADDLE_SPEED * dt;
        let target: i64 = if up {
            paddle.pos.y + step
        } else {
            paddle.pos.y - step
        };
        paddle.pos.y = clamp_i64(
            target,
            BOTTOM_WALL + PADDLE_HALF_HEIGHT,
            TOP_WALL - PADDLE_HALF_HEIGHT,
        );
    }
}

/// Input handling. While paused, only the edge-triggered serve action
/// is honored: it clears the pause flag, and no paddle moves on that
/// tick. While in play, each paddle moves by its held keys, clamped to
/// the playfield; the pause flag is untouched.
pub fn handle_input(
    paused: &mut Paused,
    left: &mut Paddle,
    right: &mut Paddle,
    input: &InputState,
    dt: i64,
)
    requires
        0 <= dt <= DT_LIMIT,
        old(left).wf(),
        old(right).wf(),
    ensures
        old(paused).0 ==> final(paused).0 == !input.serve_just_pressed,
        !old(paused).0 ==> *final(paused) == *old(paused),
        old(paused).0 ==> *final(left) == *old(left) && *final(right) == *old(right),
        !old(paused).0 ==> final(left).pos.y as int == moved_paddle_y(
            old(left).pos.y as int,
            input.left_up,
            input.left_down,
            dt as int,
        ),
        !old(paused).0 ==> final(right).pos.y as int == moved_paddle_y(
            old(right).pos.y as int,
            input.right_up,
            input.right_down,
            dt as int,
        ),
        final(left).side == old(left).side && final(left).pos.x == old(left).pos.x,
        final(right).side == old(right).side && final(right).pos.x == old(right).pos.x,
        final(left).wf(),
        final(right).wf(),
{
    if paused.0 {
        if input.serve_just_pressed {
            paused.0 = false;
        }
        return ;
    }
    move_paddle(left, input.left_up, input.left_down, dt);
    move_paddle(right, input.right_up, input.right_down, dt);
}

/// The circle-vs-axis-aligned-box intersection test between the ball
/// (a circle of the configured radius) and a paddle (a box with the
/// configured half extents), both by their centers: the box's closest
/// point to the circle's center lies within the radius.
pub open spec fn ball_paddle_overlap(ball_pos: Vec2, paddle_pos: Vec2) -> bool {
    let cx = clamp_int(
        ball_pos.x as int,
        paddle_pos.x - PADDLE_HALF_WIDTH,
        paddle_pos.x + PADDLE_HALF_WIDTH,
    );
    let cy = clamp_int(
        ball_pos.y as int,
        paddle_pos.y - PADDLE_HALF_HEIGHT,
        paddle_pos.y + PADDLE_HALF_HEIGHT,
    );
    let dx = ball_pos.x - cx;
    let dy = ball_pos.y - cy;
    dx * dx + dy * dy <= BALL_RADIUS * BALL_RADIUS
}

/// Performs the circle-vs-box test of `ball_paddle_overlap`.
pub fn ball_hits_paddle(ball_pos: Vec2, paddle_pos: Vec2) -> (hit: bool)
    requires
        -POSITION_LIMIT <= ball_pos.x <= POSITION_LIMIT,
        -POSITION_LIMIT <= ball_pos.y <= POSITION_LIMIT,
        -POSITION_LIMIT <= paddle_pos.x <= POSITION_LIMIT,
        -POSITION_LIMIT <= paddle_pos.y <= POSITION_LIMIT,
    ensures
        hit == ball_paddle_overlap(ball_pos, paddle_pos),
{
    let cx: i64 = clamp_i64(
        ball_pos.x,
        paddle_pos.x - PADDLE_HALF_WIDTH,
        paddle_pos.x + PADDLE_HALF_WIDTH,
    );
    let cy: i64 = clamp_i64(
        ball_pos.y,
        paddle_pos.y - PADDLE_HALF_HEIGHT,
        paddle_pos.y + PADDLE_HALF_HEIGHT,
    );
    let dx: i64 = ball_pos.x - cx;
    let dy: i64 = ball_pos.y - cy;
    if dx > BALL_RADIUS || dx < -BALL_RADIUS || dy > BALL_RADIUS || dy < -BALL_RADIUS {
        assert(dx * dx + dy * dy > BALL_RADIUS * BALL_RADIUS) by (nonlinear_arith)
            requires
                dx > 8_000 || dx < -8_000 || dy > 8_000 || dy < -8_000,
        ;
        return false;
    }
    assert(0 <= dx * dx <= 64_000_000 && 0 <= dy * dy <= 64_000_000) by (nonlinear_arith)
        requires
            -8_000 <= dx <= 8_000 && -8_000 <= dy <= 8_000,
    ;
    dx * dx + dy * dy <= BALL_RADIUS * BALL_RADIUS
}

/// The ball moves toward the given paddle: leftward for the left-side
/// paddle (negative home column), rightward for the right-side one.
pub open spec fn approaching(vel: Vec2, paddle_pos: Vec2) -> bool {
    if paddle_pos.x < 0 {
        vel.x < 0
    } else {
        vel.x > 0
    }
}

/// The ball's velocity after the vertical-wall checks: the vertical
/// component flips at the top wall only when still moving up, and at
/// the bottom wall only when still moving down, so a ball already
/// heading back in is left alone.
pub open spec fn wall_bounced_vy(pos: Vec2, vy: int) -> int {
    let vy_top = if pos.y > TOP_WALL && vy > 0 {
        -vy
    } else {
        vy
    };
    if pos.y < BOTTOM_WALL && vy_top < 0 {
        -vy_top
    } else {
        vy_top
    }
}

/// The ball's velocity after one paddle's collision check: reflected
/// by the bounce response when the ball overlaps the paddle and moves
/// toward it, unchanged otherwise. The direction guard keeps a ball
/// that overlaps the paddle across several ticks from being reflected
/// more than once per approach.
pub open spec fn paddle_checked_velocity(ball_pos: Vec2, vel: Vec2, paddle: Paddle) -> Vec2 {
    if ball_paddle_overlap(ball_pos, paddle.pos) && approaching(vel, paddle.pos) {
        let (bx, by) = bounce_spec(vel, ball_pos.y - paddle.pos.y);
        Vec2 { x: bx as i64, y: by as i64 }
    } else {
        vel
    }
}

/// The full outcome of the collision system for one tick: a boundary
/// exit ends the tick at once with a scoring notification for the
/// other side and the velocity untouched; otherwise the wall checks
/// run, then each paddle's check, left before right.
pub open spec fn collision_outcome(ball: Ball, left: Paddle, right: Paddle) -> (
    Velocity,
    Option<Player>,
) {
    if ball.pos.x < LEFT_EDGE {
        (ball.vel, Some(Player::Right))
    } else if ball.pos.x > RIGHT_EDGE {
        (ball.vel, Some(Player::Left))
    } else {
        let after_walls = Vec2 {
            x: ball.vel.0.x,
            y: wall_bounced_vy(ball.pos, ball.vel.0.y as int) as i64,
        };
        let after_left = paddle_checked_velocity(ball.pos, after_walls, left);
        let after_right = paddle_checked_velocity(ball.pos, after_left, right);
        (Velocity(after_right), None)
    }
}

/// The collision and scoring system, run once per fixed tick after
/// integration and input: emits at most one scoring notification, and
/// updates only the ball's velocity, preserving the in-play speed and
/// angle invariants.
pub fn check_for_collisions(ball: &mut Ball, left: &Paddle, right: &Paddle) -> (scored: Option<
    Scored,
>)
    requires
        old(ball).wf(),
        left.wf(),
        right.wf(),
    ensures
        final(ball).pos == old(ball).pos,
        final(ball).vel == collision_outcome(*old(ball), *left, *right).0,
        scored == (match collision_outcome(*old(ball), *left, *right).1 {
            Some(p) => Some(Scored { player: p }),
            None => None::<Scored>,
        }),
        final(ball).wf(),
        old(ball).pos.x < LEFT_EDGE ==> scored == Some(Scored { player: Player::Right })
            && final(ball).vel == old(ball).vel,
        old(ball).pos.x > RIGHT_EDGE && old(ball).pos.x >= LEFT_EDGE ==> scored == Some(
            Scored { player: Player::Left },
        ) && final(ball).vel == old(ball).vel,
        LEFT_EDGE <= old(ball).pos.x <= RIGHT_EDGE ==> scored is None,
{
    if ball.pos.x < LEFT_EDGE {
        return Some(Scored { player: Player::Right });
    }
    if ball.pos.x > RIGHT_EDGE {
        return Some(Scored { player: Player::Left });
    }
    let ghost vy0: int = ball.vel.0.y as int;
    proof {
        lemma_velocity_component_bounds(ball.vel.0);
    }
    if ball.pos.y > TOP_WALL && ball.vel.0.y > 0 {
        ball.vel.0.y = -ball.vel.0.y;
    }
    if ball.pos.y < BOTTOM_WALL && ball.vel.0.y < 0 {
        ball.vel.0.y = -ball.vel.0.y;
    }
    proof {
        assert(ball.vel.0.y * ball.vel.0.y == vy0 * vy0) by (nonlinear_arith)
            requires
                ball.vel.0.y == vy0 || ball.vel.0.y == -vy0,
        ;
    }
    if ball_hits_paddle(ball.pos, left.pos) && ((left.pos.x < 0 && ball.vel.0.x < 0) || (
    left.pos.x >= 0 && ball.vel.0.x > 0)) {
        ball.vel.0 = paddle_bounce(ball.vel.0, ball.pos.y, left.pos.y);
    }
    if ball_hits_paddle(ball.pos, right.pos) && ((right.pos.x < 0 && ball.vel.0.x < 0) || (
    right.pos.x >= 0 && ball.vel.0.x > 0)) {
        ball.vel.0 = paddle_bounce(ball.vel.0, ball.pos.y, right.pos.y);
    }
    None
}

/// The paddles stand so far apart that the ball can only ever overlap
/// one of them.
pub proof fn lemma_overlap_one_paddle(ball_pos: Vec2, left: Paddle, right: Paddle)
    requires
        left.wf(),
        right.wf(),
        left.side == Player::Left,
        right.side == Player::Right,
    ensures
        ball_paddle_overlap(ball_pos, left.pos) ==> !ball_paddle_overlap(ball_pos, right.pos),
        ball_paddle_overlap(ball_pos, right.pos) ==> !ball_paddle_overlap(ball_pos, left.pos),
{
    let lx = clamp_int(ball_pos.x as int, left.pos.x - PADDLE_HALF_WIDTH, left.pos.x + PADDLE_HALF_WIDTH);
    let ly = clamp_int(ball_pos.y as int, left.pos.y - PADDLE_HALF_HEIGHT, left.pos.y + PADDLE_HALF_HEIGHT);
    let rx = clamp_int(ball_pos.x as int, right.pos.x - PADDLE_HALF_WIDTH, right.pos.x + PADDLE_HALF_WIDTH);
    let ry = clamp_int(ball_pos.y as int, right.pos.y - PADDLE_HALF_HEIGHT, right.pos.y + PADDLE_HALF_HEIGHT);
    assert(left.pos.x == -578_000 && right.pos.x == 578_000);
    assert(BALL_RADIUS * BALL_RADIUS == 64_000_000);
    if ball_paddle_overlap(ball_pos, left.pos) {
        let dx = ball_pos.x - lx;
        let dy = ball_pos.y - ly;
        assert(-8_000 <= dx <= 8_000) by (nonlinear_arith)
            requires
                dx * dx + dy * dy <= 64_000_000,
        ;
        assert(ball_pos.x <= -560_000);
        let dx2 = ball_pos.x - rx;
        assert(dx2 <= -1_128_000);
        assert(dx2 * dx2 + (ball_pos.y - ry) * (ball_pos.y - ry) > 64_000_000)
            by (nonlinear_arith)
            requires
                dx2 <= -1_128_000,
        ;
    }
    if ball_paddle_overlap(ball_pos, right.pos) {
        let dx = ball_pos.x - rx;
        let dy = ball_pos.y - ry;
        assert(-8_000 <= dx <= 8_000) by (nonlinear_arith)
            requires
                dx * dx + dy * dy <= 64_000_000,
        ;
        assert(ball_pos.x >= 560_000);
        let dx2 = ball_pos.x - lx;
        assert(dx2 >= 1_128_000);
        assert(dx2 * dx2 + (ball_pos.y - ly) * (ball_pos.y - ly) > 64_000_000)
            by (nonlinear_arith)
            requires
                dx2 >= 1_128_000,
        ;
    }
}

/// The re-trigger guard: a ball that approaches and hits the left
/// paddle leaves the collision pass moving rightward, and a later
/// collision pass in which the ball still overlaps that paddle with
/// that carried-over velocity applies no paddle reflection at all —
/// only the wall checks can still touch the velocity. So a ball that
/// stays geometrically overlapping a paddle is reflected at most once
/// per approach. `lemma_no_retrigger_right` mirrors this claim at the
/// right paddle.
pub proof fn lemma_no_retrigger_left(b1: Ball, left: Paddle, right: Paddle, b2: Ball)
    requires
        b1.wf(),
        left.wf(),
        right.wf(),
        left.side == Player::Left,
        right.side == Player::Right,
        LEFT_EDGE <= b1.pos.x <= RIGHT_EDGE,
        ball_paddle_overlap(b1.pos, left.pos),
        b1.vel.0.x < 0,
        b2.vel == collision_outcome(b1, left, right).0,
        LEFT_EDGE <= b2.pos.x <= RIGHT_EDGE,
        ball_paddle_overlap(b2.pos, left.pos),
    ensures
        collision_outcome(b1, left, right).0.0.x > 0,
        collision_outcome(b2, left, right).0 == Velocity(
            Vec2 { x: b2.vel.0.x, y: wall_bounced_vy(b2.pos, b2.vel.0.y as int) as i64 },
        ),
{
    lemma_overlap_one_paddle(b1.pos, left, right);
    lemma_overlap_one_paddle(b2.pos, left, right);
    let after_walls = Vec2 {
        x: b1.vel.0.x,
        y: wall_bounced_vy(b1.pos, b1.vel.0.y as int) as i64,
    };
    lemma_velocity_component_bounds(b1.vel.0);
    assert(after_walls.y * after_walls.y == b1.vel.0.y * b1.vel.0.y) by (nonlinear_arith)
        requires
            after_walls.y == b1.vel.0.y || after_walls.y == -b1.vel.0.y,
    ;
    assert(speed_within_tolerance(after_walls) && angle_within_max(after_walls));
    assert(approaching(after_walls, left.pos));
    crate::utils::lemma_bounce_reverses_horizontal(after_walls, b1.pos.y - left.pos.y);
    crate::utils::lemma_bounce_keeps_speed(after_walls, b1.pos.y - left.pos.y);
    let (bx, by) = bounce_spec(after_walls, b1.pos.y - left.pos.y);
    assert(bx > 0);
    assert(-708 <= bx <= 708 && -708 <= by <= 708) by (nonlinear_arith)
        requires
            bx * bx + by * by <= 500_000,
    ;
    let reflected = Vec2 { x: bx as i64, y: by as i64 };
    assert(collision_outcome(b1, left, right).0 == Velocity(reflected));
    // The carried-over velocity moves rightward, so the left paddle's
    // guard rejects it on the later pass, and the right paddle is out
    // of reach while the ball still overlaps the left one.
    assert(b2.vel.0.x > 0);
    let after_walls2 = Vec2 {
        x: b2.vel.0.x,
        y: wall_bounced_vy(b2.pos, b2.vel.0.y as int) as i64,
    };
    assert(!approaching(after_walls2, left.pos));
    assert(!ball_paddle_overlap(b2.pos, right.pos));
}

/// The re-trigger guard at the right paddle, mirroring
/// `lemma_no_retrigger_left`: one reflection per approach.
pub proof fn lemma_no_retrigger_right(b1: Ball, left: Paddle, right: Paddle, b2: Ball)
    requires
        b1.wf(),
        left.wf(),
        right.wf(),
        left.side == Player::Left,
        right.side == Player::Right,
        LEFT_EDGE <= b1.pos.x <= RIGHT_EDGE,
        ball_paddle_overlap(b1.pos, right.pos),
        b1.vel.0.x > 0,
        b2.vel == collision_outcome(b1, left, right).0,
        LEFT_EDGE <= b2.pos.x <= RIGHT_EDGE,
        ball_paddle_overlap(b2.pos, right.pos),
    ensures
        collision_outcome(b1, left, right).0.0.x < 0,
        collision_outcome(b2, left, right).0 == Velocity(
            Vec2 { x: b2.vel.0.x, y: wall_bounced_vy(b2.pos, b2.vel.0.y as int) as i64 },
        ),
{
    lemma_overlap_one_paddle(b1.pos, left, right);
    lemma_overlap_one_paddle(b2.pos, left, right);
    let after_walls = Vec2 {
        x: b1.vel.0.x,
        y: wall_bounced_vy(b1.pos, b1.vel.0.y as int) as i64,
    };
    lemma_velocity_component_bounds(b1.vel.0);
    assert(after_walls.y * after_walls.y == b1.vel.0.y * b1.vel.0.y) by (nonlinear_arith)
        requires
            after_walls.y == b1.vel.0.y || after_walls.y == -b1.vel.0.y,
    ;
    assert(speed_within_tolerance(after_walls) && angle_within_max(after_walls));
    assert(!ball_paddle_overlap(b1.pos, left.pos));
    assert(approaching(after_walls, right.pos));
    crate::utils::lemma_bounce_reverses_horizontal(after_walls, b1.pos.y - right.pos.y);
    crate::utils::lemma_bounce_keeps_speed(after_walls, b1.pos.y - right.pos.y);
    let (bx, by) = bounce_spec(after_walls, b1.pos.y - right.pos.y);
    assert(bx < 0);
    assert(-708 <= bx <= 708 && -708 <= by <= 708) by (nonlinear_arith)
        requires
            bx * bx + by * by <= 500_000,
    ;
    let reflected = Vec2 { x: bx as i64, y: by as i64 };
    assert(collision_outcome(b1, left, right).0 == Velocity(reflected));
    assert(b2.vel.0.x < 0);
    let after_walls2 = Vec2 {
        x: b2.vel.0.x,
        y: wall_bounced_vy(b2.pos, b2.vel.0.y as int) as i64,
    };
    assert(!approaching(after_walls2, right.pos));
    assert(!ball_paddle_overlap(b2.pos, left.pos));
}

/// The wall-bounce rule: a ball beyond the top wall still moving up
/// has its vertical velocity flipped, while one already moving back
/// down is left alone, and the ball's horizontal velocity never
/// changes at a wall. Paddle overlap is excluded so that only the
/// wall checks act on the velocity.
pub proof fn lemma_wall_bounce(ball: Ball, left: Paddle, right: Paddle)
    requires
        LEFT_EDGE <= ball.pos.x <= RIGHT_EDGE,
        ball.pos.y > TOP_WALL,
        !ball_paddle_overlap(ball.pos, left.pos),
        !ball_paddle_overlap(ball.pos, right.pos),
    ensures
        ball.vel.0.y > 0 ==> collision_outcome(ball, left, right).0 == Velocity(
            Vec2 { x: ball.vel.0.x, y: (-ball.vel.0.y) as i64 },
        ),
        ball.vel.0.y <= 0 ==> collision_outcome(ball, left, right).0 == ball.vel,
        collision_outcome(ball, left, right).1 is None,
{
}

} // verus!
