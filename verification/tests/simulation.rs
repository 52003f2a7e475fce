use pong_core::components::{Ball, InputState, Paddle, Player, Vec2, Velocity};
use pong_core::constants::{
    BALL_SPEED, LEFT_EDGE, PADDLE_MARGIN, RIGHT_EDGE, TOP_WALL,
};
use pong_core::events::Scored;
use pong_core::fixed_update::{ball_hits_paddle, check_for_collisions, handle_input};
use pong_core::resources::{Paused, Score};
use pong_core::state::{fixed_tick, update_tick, GameState};
use pong_core::update::handle_scored;
use pong_core::utils::{clamp_velocity_angle, isqrt, paddle_bounce};

fn no_input() -> InputState {
    InputState {
        left_up: false,
        left_down: false,
        right_up: false,
        right_down: false,
        serve_just_pressed: false,
    }
}

fn left_paddle_at(y: i64) -> Paddle {
    Paddle {
        side: Player::Left,
        pos: Vec2 {
            x: LEFT_EDGE + PADDLE_MARGIN,
            y,
        },
    }
}

fn right_paddle_at(y: i64) -> Paddle {
    Paddle {
        side: Player::Right,
        pos: Vec2 {
            x: RIGHT_EDGE - PADDLE_MARGIN,
            y,
        },
    }
}

fn speed_sq(v: Vec2) -> i64 {
    v.x * v.x + v.y * v.y
}

#[test]
fn initial_state_is_paused_and_centered() {
    let s = GameState::new();
    assert_eq!(s.ball.pos, Vec2 { x: 0, y: 0 });
    assert_eq!(s.ball.vel, Velocity(Vec2 { x: BALL_SPEED, y: 0 }));
    assert_eq!(s.left_paddle.pos, Vec2 { x: -578_000, y: 0 });
    assert_eq!(s.right_paddle.pos, Vec2 { x: 578_000, y: 0 });
    assert_eq!(s.score, Score(0, 0));
    assert!(s.paused.0);
    assert!(s.pending.is_none());
}

#[test]
fn serve_unpauses_and_changes_nothing_else() {
    let mut s = GameState::new();
    let mut input = no_input();
    input.serve_just_pressed = true;
    let before = s;
    fixed_tick(&mut s, &input, 16);
    assert!(!s.paused.0);
    assert_eq!(s.ball, before.ball);
    assert_eq!(s.left_paddle, before.left_paddle);
    assert_eq!(s.right_paddle, before.right_paddle);
    assert_eq!(s.score, before.score);
    assert!(s.pending.is_none());
}

#[test]
fn paused_tick_changes_nothing() {
    let mut s = GameState::new();
    let mut input = no_input();
    input.left_up = true;
    input.right_down = true;
    let before = s;
    fixed_tick(&mut s, &input, 16);
    assert_eq!(s, before);
}

#[test]
fn motion_advances_by_velocity_times_dt() {
    let mut s = GameState::new();
    s.paused = Paused(false);
    fixed_tick(&mut s, &no_input(), 16);
    assert_eq!(s.ball.pos, Vec2 { x: 11_200, y: 0 });
    assert_eq!(s.ball.vel, Velocity(Vec2 { x: 700, y: 0 }));
}

#[test]
fn center_hit_reflects_straight_back() {
    let mut ball = Ball {
        pos: Vec2 { x: -565_000, y: 0 },
        vel: Velocity(Vec2 { x: -700, y: 0 }),
    };
    let scored = check_for_collisions(&mut ball, &left_paddle_at(0), &right_paddle_at(0));
    assert!(scored.is_none());
    assert_eq!(ball.vel, Velocity(Vec2 { x: 700, y: 0 }));
}

#[test]
fn offset_hit_adds_upward_spin() {
    let mut ball = Ball {
        pos: Vec2 {
            x: -565_000,
            y: 50_000,
        },
        vel: Velocity(Vec2 { x: -700, y: 0 }),
    };
    let scored = check_for_collisions(&mut ball, &left_paddle_at(0), &right_paddle_at(0));
    assert!(scored.is_none());
    let v = ball.vel.0;
    assert!(v.x > 0);
    assert!(v.y > 0);
    assert_eq!(v, Vec2 { x: 646, y: 268 });
    let sq = speed_sq(v);
    assert!((480_000..=500_000).contains(&sq));
    assert!(v.y * v.y <= 3 * v.x * v.x);
}

#[test]
fn bounce_keeps_speed_and_angle_for_extreme_offsets() {
    let v = paddle_bounce(Vec2 { x: -700, y: 0 }, 100_000, 0);
    assert_eq!(v, Vec2 { x: 626, y: 313 });
    let sq = speed_sq(v);
    assert!((480_000..=500_000).contains(&sq));
    assert!(v.y * v.y <= 3 * v.x * v.x);
    let w = paddle_bounce(Vec2 { x: -700, y: 0 }, -100_000, 0);
    assert_eq!(w, Vec2 { x: 626, y: -313 });
}

#[test]
fn overlapping_ball_moving_away_is_not_reflected() {
    let mut ball = Ball {
        pos: Vec2 { x: -565_000, y: 0 },
        vel: Velocity(Vec2 { x: 700, y: 0 }),
    };
    let scored = check_for_collisions(&mut ball, &left_paddle_at(0), &right_paddle_at(0));
    assert!(scored.is_none());
    assert_eq!(ball.vel, Velocity(Vec2 { x: 700, y: 0 }));
}

#[test]
fn overlapping_ball_moving_away_from_right_paddle_is_not_reflected() {
    let mut ball = Ball {
        pos: Vec2 { x: 565_000, y: 0 },
        vel: Velocity(Vec2 { x: -700, y: 0 }),
    };
    let scored = check_for_collisions(&mut ball, &left_paddle_at(0), &right_paddle_at(0));
    assert!(scored.is_none());
    assert_eq!(ball.vel, Velocity(Vec2 { x: -700, y: 0 }));
}

#[test]
fn steep_bounce_is_angle_clamped() {
    let v = paddle_bounce(Vec2 { x: -350, y: 605 }, 60_000, 0);
    assert_eq!(v, Vec2 { x: 349, y: 604 });
    let sq = speed_sq(v);
    assert!((480_000..=500_000).contains(&sq));
    assert!(v.y * v.y <= 3 * v.x * v.x);
}

#[test]
fn exit_left_scores_for_right_player() {
    let mut ball = Ball {
        pos: Vec2 { x: -660_000, y: 0 },
        vel: Velocity(Vec2 { x: -700, y: 0 }),
    };
    let scored = check_for_collisions(&mut ball, &left_paddle_at(0), &right_paddle_at(0));
    assert_eq!(
        scored,
        Some(Scored {
            player: Player::Right
        })
    );
    assert_eq!(ball.vel, Velocity(Vec2 { x: -700, y: 0 }));
}

#[test]
fn exit_right_scores_for_left_player() {
    let mut ball = Ball {
        pos: Vec2 { x: 660_000, y: 0 },
        vel: Velocity(Vec2 { x: 700, y: 0 }),
    };
    let scored = check_for_collisions(&mut ball, &left_paddle_at(0), &right_paddle_at(0));
    assert_eq!(
        scored,
        Some(Scored {
            player: Player::Left
        })
    );
    assert_eq!(ball.vel, Velocity(Vec2 { x: 700, y: 0 }));
}

#[test]
fn scored_round_resets_and_pauses() {
    let mut s = GameState::new();
    s.paused = Paused(false);
    s.ball = Ball {
        pos: Vec2 { x: -660_000, y: 77_000 },
        vel: Velocity(Vec2 { x: -700, y: 0 }),
    };
    s.left_paddle = left_paddle_at(120_000);
    s.right_paddle = right_paddle_at(-64_000);
    fixed_tick(&mut s, &no_input(), 16);
    assert_eq!(
        s.pending,
        Some(Scored {
            player: Player::Right
        })
    );
    update_tick(&mut s);
    assert_eq!(s.score, Score(0, 1));
    assert_eq!(s.ball.pos, Vec2 { x: 0, y: 0 });
    assert_eq!(s.ball.vel, Velocity(Vec2 { x: 700, y: 0 }));
    assert_eq!(s.left_paddle.pos.y, 0);
    assert_eq!(s.right_paddle.pos.y, 0);
    assert!(s.paused.0);
    assert!(s.pending.is_none());
}

#[test]
fn update_without_notification_changes_nothing() {
    let mut s = GameState::new();
    let before = s;
    update_tick(&mut s);
    assert_eq!(s, before);
}

#[test]
fn first_notification_wins() {
    let mut s = GameState::new();
    s.paused = Paused(false);
    s.pending = Some(Scored {
        player: Player::Left,
    });
    s.ball = Ball {
        pos: Vec2 { x: -660_000, y: 0 },
        vel: Velocity(Vec2 { x: -700, y: 0 }),
    };
    fixed_tick(&mut s, &no_input(), 16);
    assert_eq!(
        s.pending,
        Some(Scored {
            player: Player::Left
        })
    );
    update_tick(&mut s);
    assert_eq!(s.score, Score(1, 0));
}

#[test]
fn wall_bounce_top_flips_upward_motion_only() {
    let mut ball = Ball {
        pos: Vec2 { x: 0, y: 351_000 },
        vel: Velocity(Vec2 { x: 606, y: 350 }),
    };
    let scored = check_for_collisions(&mut ball, &left_paddle_at(0), &right_paddle_at(0));
    assert!(scored.is_none());
    assert_eq!(ball.vel, Velocity(Vec2 { x: 606, y: -350 }));

    let mut down = Ball {
        pos: Vec2 { x: 0, y: 351_000 },
        vel: Velocity(Vec2 { x: 606, y: -350 }),
    };
    let scored2 = check_for_collisions(&mut down, &left_paddle_at(0), &right_paddle_at(0));
    assert!(scored2.is_none());
    assert_eq!(down.vel, Velocity(Vec2 { x: 606, y: -350 }));
}

#[test]
fn wall_bounce_bottom_flips_downward_motion_only() {
    let mut ball = Ball {
        pos: Vec2 { x: 0, y: -351_000 },
        vel: Velocity(Vec2 { x: 606, y: -350 }),
    };
    let scored = check_for_collisions(&mut ball, &left_paddle_at(0), &right_paddle_at(0));
    assert!(scored.is_none());
    assert_eq!(ball.vel, Velocity(Vec2 { x: 606, y: 350 }));

    let mut up = Ball {
        pos: Vec2 { x: 0, y: -351_000 },
        vel: Velocity(Vec2 { x: 606, y: 350 }),
    };
    let scored2 = check_for_collisions(&mut up, &left_paddle_at(0), &right_paddle_at(0));
    assert!(scored2.is_none());
    assert_eq!(up.vel, Velocity(Vec2 { x: 606, y: 350 }));
}

#[test]
fn paddle_movement_is_clamped_to_walls() {
    let mut paused = Paused(false);
    let mut left = left_paddle_at(289_000);
    let mut right = right_paddle_at(-289_000);
    let input = InputState {
        left_up: true,
        left_down: false,
        right_up: false,
        right_down: true,
        serve_just_pressed: false,
    };
    handle_input(&mut paused, &mut left, &mut right, &input, 1_000);
    assert_eq!(left.pos.y, 290_000);
    assert_eq!(right.pos.y, -290_000);
    assert_eq!(left.pos.x, -578_000);
    assert_eq!(right.pos.x, 578_000);
}

#[test]
fn paddle_moves_by_speed_times_dt() {
    let mut paused = Paused(false);
    let mut left = left_paddle_at(0);
    let mut right = right_paddle_at(0);
    let input = InputState {
        left_up: true,
        left_down: false,
        right_up: false,
        right_down: true,
        serve_just_pressed: false,
    };
    handle_input(&mut paused, &mut left, &mut right, &input, 16);
    assert_eq!(left.pos.y, 8_000);
    assert_eq!(right.pos.y, -8_000);
}

#[test]
fn opposite_keys_cancel() {
    let mut paused = Paused(false);
    let mut left = left_paddle_at(12_345);
    let mut right = right_paddle_at(-9_000);
    let input = InputState {
        left_up: true,
        left_down: true,
        right_up: false,
        right_down: false,
        serve_just_pressed: false,
    };
    handle_input(&mut paused, &mut left, &mut right, &input, 16);
    assert_eq!(left.pos.y, 12_345);
    assert_eq!(right.pos.y, -9_000);
}

#[test]
fn overlap_test_counts_touching_as_hit() {
    let paddle = left_paddle_at(0);
    assert!(ball_hits_paddle(Vec2 { x: -560_000, y: 0 }, paddle.pos));
    assert!(!ball_hits_paddle(Vec2 { x: -559_999, y: 0 }, paddle.pos));
    assert!(ball_hits_paddle(Vec2 { x: -578_000, y: 68_000 }, paddle.pos));
    assert!(!ball_hits_paddle(Vec2 { x: -578_000, y: 68_001 }, paddle.pos));
}

#[test]
fn isqrt_matches_square_root_floor() {
    assert_eq!(isqrt(0), 0);
    assert_eq!(isqrt(1), 1);
    assert_eq!(isqrt(2), 1);
    assert_eq!(isqrt(3), 1);
    assert_eq!(isqrt(4), 2);
    assert_eq!(isqrt(574_681), 758);
    assert_eq!(isqrt(489_999), 699);
    assert_eq!(isqrt(490_000), 700);
    assert_eq!(isqrt(4_000_000_000_000), 2_000_000);
}

#[test]
fn angle_clamp_leaves_playable_vectors_alone() {
    let v = clamp_velocity_angle(Vec2 { x: 606, y: 350 });
    assert_eq!(v, Vec2 { x: 606, y: 350 });
    let zero = clamp_velocity_angle(Vec2 { x: 0, y: 0 });
    assert_eq!(zero, Vec2 { x: 0, y: 0 });
}

#[test]
fn angle_clamp_caps_steep_vectors() {
    let v = clamp_velocity_angle(Vec2 { x: 100, y: 697 });
    assert_eq!(v, Vec2 { x: 352, y: 609 });
    assert!(v.y * v.y <= 3 * v.x * v.x);
    let w = clamp_velocity_angle(Vec2 { x: -100, y: -697 });
    assert_eq!(w, Vec2 { x: -352, y: -609 });
}

#[test]
fn reflection_happens_once_per_approach() {
    let mut ball = Ball {
        pos: Vec2 { x: -565_000, y: 0 },
        vel: Velocity(Vec2 { x: -700, y: 0 }),
    };
    let left = left_paddle_at(0);
    let right = right_paddle_at(0);
    let first = check_for_collisions(&mut ball, &left, &right);
    assert!(first.is_none());
    assert_eq!(ball.vel, Velocity(Vec2 { x: 700, y: 0 }));
    // Still overlapping on the next tick: the guard suppresses a
    // second reflection.
    ball.pos.x += 11_200;
    let second = check_for_collisions(&mut ball, &left, &right);
    assert!(second.is_none());
    assert_eq!(ball.vel, Velocity(Vec2 { x: 700, y: 0 }));
}

#[test]
fn missed_ball_ends_round_through_the_full_loop() {
    let mut s = GameState::new();
    s.paused = Paused(false);
    s.ball = Ball {
        pos: Vec2 {
            x: 600_000,
            y: 100_000,
        },
        vel: Velocity(Vec2 { x: 700, y: 0 }),
    };
    let mut rounds: u32 = 0;
    for _ in 0..20 {
        fixed_tick(&mut s, &no_input(), 16);
        update_tick(&mut s);
        if s.paused.0 {
            rounds += 1;
            break;
        }
    }
    assert_eq!(rounds, 1);
    assert_eq!(s.score, Score(1, 0));
    assert_eq!(s.ball.pos, Vec2 { x: 0, y: 0 });
    assert_eq!(s.ball.vel, Velocity(Vec2 { x: 700, y: 0 }));
    assert_eq!(s.left_paddle.pos.y, 0);
    assert_eq!(s.right_paddle.pos.y, 0);
    assert!(s.pending.is_none());
}

#[test]
fn rally_keeps_speed_near_target() {
    let mut s = GameState::new();
    let mut input = no_input();
    input.serve_just_pressed = true;
    fixed_tick(&mut s, &input, 16);
    input.serve_just_pressed = false;
    for _ in 0..200 {
        fixed_tick(&mut s, &input, 16);
        let sq = speed_sq(s.ball.vel.0);
        assert!((480_000..=500_000).contains(&sq));
        if s.pending.is_some() {
            break;
        }
    }
}
