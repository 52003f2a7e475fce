//! Geometry and vector math: clamping, integer square root, and the
//! paddle-bounce response (mirror, spin, renormalize, angle clamp).

use vstd::prelude::*;

use vstd::arithmetic::div_mod::{
    lemma_div_is_ordered, lemma_div_is_ordered_by_denominator, lemma_div_nonincreasing,
    lemma_div_pos_is_pos, lemma_fundamental_div_mod, lemma_mod_bound,
};

use crate::components::{angle_within_max, speed_within_tolerance, Vec2};
use crate::constants::{
    BALL_SPEED, MAX_ANGLE_TAN_SQ, PADDLE_HALF_HEIGHT, POSITION_LIMIT, SPEED_SQ_TOLERANCE,
    SPIN_FACTOR_DENOM, SPIN_FACTOR_NUMER, VELOCITY_LIMIT,
};

verus! {

/// `x` pulled into `[lo, hi]`.
pub open spec fn clamp_int(x: int, lo: int, hi: int) -> int {
    if x < lo {
        lo
    } else if x > hi {
        hi
    } else {
        x
    }
}

/// Clamps `x` into `[lo, hi]`.
pub fn clamp_i64(x: i64, lo: i64, hi: i64) -> (r: i64)
    requires
        lo <= hi,
    ensures
        r == clamp_int(x as int, lo as int, hi as int),
{
    if x < lo {
        lo
    } else if x > hi {
        hi
    } else {
        x
    }
}

/// `r` is the floor of the square root of `n`.
pub open spec fn is_sqrt_floor(n: int, r: int) -> bool {
    0 <= r && r * r <= n < (r + 1) * (r + 1)
}

/// The floor of the square root of `n` (meaningful for `n >= 0`).
pub open spec fn sqrt_floor(n: int) -> int {
    choose|r: int| is_sqrt_floor(n, r)
}

/// Every `n >= 0` has a square-root floor.
pub proof fn lemma_sqrt_floor_exists(n: int)
    requires
        n >= 0,
    ensures
        is_sqrt_floor(n, sqrt_floor(n)),
    decreases n,
{
    if n == 0 {
        assert(is_sqrt_floor(0, 0));
    } else {
        lemma_sqrt_floor_exists(n - 1);
        let p = sqrt_floor(n - 1);
        if (p + 1) * (p + 1) <= n {
            assert(n - 1 < (p + 1) * (p + 1));
            assert((p + 1) * (p + 1) <= n < (p + 2) * (p + 2)) by (nonlinear_arith)
                requires
                    0 <= p && (p + 1) * (p + 1) <= n <= (p + 1) * (p + 1),
            ;
            assert(is_sqrt_floor(n, p + 1));
        } else {
            assert(is_sqrt_floor(n, p));
        }
    }
    let w = choose|r: int| is_sqrt_floor(n, r);
    assert(is_sqrt_floor(n, w));
}

/// The square-root floor is unique, so `sqrt_floor` returns exactly it.
pub proof fn lemma_sqrt_floor_unique(n: int, r: int)
    requires
        is_sqrt_floor(n, r),
    ensures
        sqrt_floor(n) == r,
{
    let c = choose|x: int| is_sqrt_floor(n, x);
    assert(is_sqrt_floor(n, c));
    if c < r {
        assert((c + 1) * (c + 1) <= r * r) by (nonlinear_arith)
            requires
                0 <= c + 1 <= r,
        ;
    }
    if r < c {
        assert((r + 1) * (r + 1) <= c * c) by (nonlinear_arith)
            requires
                0 <= r + 1 <= c,
        ;
    }
}

/// The floor of the square root of `n`.
pub fn isqrt(n: u64) -> (r: u64)
    requires
        n <= 4_000_000_000_000,
    ensures
        is_sqrt_floor(n as int, r as int),
        r == sqrt_floor(n as int),
        r <= 2_000_000,
{
    let mut r: u64 = 0;
    loop
        invariant
            n <= 4_000_000_000_000,
            r * r <= n,
            r <= 2_000_000,
        ensures
            r * r <= n < (r + 1) * (r + 1),
        decreases 2_000_000 - r,
    {
        let next: u64 = r + 1;
        match next.checked_mul(next) {
            Some(sq) => {
                if sq > n {
                    break;
                }
                assert(next <= 2_000_000) by (nonlinear_arith)
                    requires
                        next * next <= 4_000_000_000_000 && 0 <= next,
                ;
                r = next;
            },
            None => {
                break;
            },
        }
    }
    assert(is_sqrt_floor(n as int, r as int));
    proof {
        lemma_sqrt_floor_unique(n as int, r as int);
    }
    r
}

/// Division of `a` by `d > 0` truncated toward zero, as fixed-point
/// hardware and the executable code compute it on signed values.
pub open spec fn div_toward_zero(a: int, d: int) -> int {
    if a >= 0 {
        a / d
    } else {
        -((-a) / d)
    }
}

/// The extra vertical velocity a paddle hit adds, from the raw vertical
/// distance `dy` of the ball's center to the paddle's center: the
/// distance is clamped to the paddle's half height, scaled to the
/// normalized hit offset, and multiplied by the ball speed and the
/// spin factor.
pub open spec fn spin_term(dy: int) -> int {
    let c = clamp_int(dy, -PADDLE_HALF_HEIGHT as int, PADDLE_HALF_HEIGHT as int);
    div_toward_zero(
        c * (BALL_SPEED * SPIN_FACTOR_NUMER),
        PADDLE_HALF_HEIGHT * SPIN_FACTOR_DENOM,
    )
}

/// One component of a vector rescaled so that the whole vector's
/// magnitude is close to `BALL_SPEED`, where `l` is the magnitude of
/// the unscaled vector (rounded down).
pub open spec fn scaled_component(w: int, l: int) -> int {
    div_toward_zero(w * BALL_SPEED, l)
}

/// The angle clamp on a velocity `(x, y)`: unchanged when the angle to
/// the horizontal axis is within the maximum, otherwise rebuilt from
/// the vector's magnitude at the maximum angle, keeping the signs of
/// both components. The cosine of the maximum angle is 1/2, so the
/// clamped horizontal magnitude is half the speed; the vertical
/// magnitude is the largest one that still obeys the angle bound.
pub open spec fn clamp_angle_spec(x: int, y: int) -> (int, int) {
    if y * y <= MAX_ANGLE_TAN_SQ * (x * x) {
        (x, y)
    } else {
        let l = sqrt_floor(x * x + y * y);
        let xm = l / 2;
        let ym = sqrt_floor(MAX_ANGLE_TAN_SQ * (xm * xm));
        ((if x >= 0 { xm } else { -xm }), (if y >= 0 { ym } else { -ym }))
    }
}

/// The full paddle-bounce response on a velocity `v` for a hit at
/// vertical distance `dy` from the paddle's center: mirror the
/// horizontal component, add spin, rescale to the ball speed, then
/// clamp the angle. A zero intermediate vector is returned unchanged
/// rather than rescaled.
pub open spec fn bounce_spec(v: Vec2, dy: int) -> (int, int) {
    let wx = -v.x;
    let wy = v.y + spin_term(dy);
    if wx == 0 && wy == 0 {
        (0, 0)
    } else {
        let l = sqrt_floor(wx * wx + wy * wy);
        clamp_angle_spec(scaled_component(wx, l), scaled_component(wy, l))
    }
}

/// Clamps the angle of `velocity` against the horizontal axis to the
/// configured maximum bounce angle, preserving the vector's magnitude
/// (up to rounding) and the signs of its components. A zero vector is
/// returned unchanged.
pub fn clamp_velocity_angle(velocity: Vec2) -> (r: Vec2)
    requires
        -VELOCITY_LIMIT <= velocity.x <= VELOCITY_LIMIT,
        -VELOCITY_LIMIT <= velocity.y <= VELOCITY_LIMIT,
    ensures
        r.x as int == clamp_angle_spec(velocity.x as int, velocity.y as int).0,
        r.y as int == clamp_angle_spec(velocity.x as int, velocity.y as int).1,
        angle_within_max(r),
{
    let x = velocity.x;
    let y = velocity.y;
    assert(0 <= x * x <= 1_000_000_000_000 && 0 <= y * y <= 1_000_000_000_000)
        by (nonlinear_arith)
        requires
            -1_000_000 <= x <= 1_000_000 && -1_000_000 <= y <= 1_000_000,
    ;
    let xx: i64 = x * x;
    let yy: i64 = y * y;
    if yy <= MAX_ANGLE_TAN_SQ * xx {
        return velocity;
    }
    let l: u64 = isqrt((xx + yy) as u64);
    assert(l <= 2_000_000) by (nonlinear_arith)
        requires
            l * l <= 4_000_000_000_000 && 0 <= l,
    ;
    proof {
        lemma_div_pos_is_pos(l as int, 2);
        lemma_div_is_ordered(l as int, 2_000_000, 2);
    }
    let xm: i64 = (l / 2) as i64;
    assert(0 <= xm * xm <= 1_000_000_000_000) by (nonlinear_arith)
        requires
            0 <= xm <= 1_000_000,
    ;
    let ym: i64 = isqrt((MAX_ANGLE_TAN_SQ * (xm * xm)) as u64) as i64;
    proof {
        lemma_sqrt_floor_unique(xx + yy, l as int);
        lemma_sqrt_floor_unique(
            MAX_ANGLE_TAN_SQ * (xm as int * xm as int),
            ym as int,
        );
    }
    let rx: i64 = if x >= 0 {
        xm
    } else {
        -xm
    };
    let ry: i64 = if y >= 0 {
        ym
    } else {
        -ym
    };
    assert(ry * ry <= MAX_ANGLE_TAN_SQ * (rx * rx)) by (nonlinear_arith)
        requires
            ym * ym <= 3 * (xm * xm) && (rx == xm || rx == -xm) && (ry == ym || ry == -ym),
    ;
    Vec2 { x: rx, y: ry }
}

/// The spin a paddle hit adds never exceeds half the ball speed.
pub proof fn lemma_spin_term_bounded(dy: int)
    ensures
        -350 <= spin_term(dy) <= 350,
{
    let c = clamp_int(dy, -PADDLE_HALF_HEIGHT as int, PADDLE_HALF_HEIGHT as int);
    assert(-60_000 <= c <= 60_000);
    assert(BALL_SPEED * SPIN_FACTOR_NUMER == 700);
    assert(PADDLE_HALF_HEIGHT * SPIN_FACTOR_DENOM == 120_000);
    if c >= 0 {
        let a = c * (BALL_SPEED * SPIN_FACTOR_NUMER);
        assert(0 <= a <= 42_000_000);
        lemma_div_pos_is_pos(a, 120_000);
        lemma_div_is_ordered(a, 42_000_000, 120_000);
        vstd::arithmetic::div_mod::lemma_fundamental_div_mod_converse(
            42_000_000,
            120_000,
            350,
            0,
        );
    } else {
        let a = c * (BALL_SPEED * SPIN_FACTOR_NUMER);
        assert(-42_000_000 <= a < 0);
        lemma_div_pos_is_pos(-a, 120_000);
        lemma_div_is_ordered(-a, 42_000_000, 120_000);
        vstd::arithmetic::div_mod::lemma_fundamental_div_mod_converse(
            42_000_000,
            120_000,
            350,
            0,
        );
    }
}

/// A velocity near the target speed has both components bounded by 707.
pub proof fn lemma_velocity_component_bounds(v: Vec2)
    requires
        speed_within_tolerance(v),
    ensures
        -707 <= v.x <= 707,
        -707 <= v.y <= 707,
{
    assert(-707 <= v.x <= 707 && -707 <= v.y <= 707) by (nonlinear_arith)
        requires
            v.x * v.x + v.y * v.y <= 500_000,
    ;
}

/// After mirroring the horizontal component and adding a bounded spin
/// to the vertical one, the squared magnitude stays in a known band.
pub proof fn lemma_mirror_spin_norm_bounds(v: Vec2, s: int)
    requires
        speed_within_tolerance(v),
        -350 <= s <= 350,
    ensures
        107_600 <= v.x * v.x + (v.y + s) * (v.y + s) <= 1_200_000,
{
    lemma_velocity_component_bounds(v);
    assert(v.x * v.x + (v.y + s) * (v.y + s) <= 1_200_000) by (nonlinear_arith)
        requires
            v.x * v.x + v.y * v.y <= 500_000,
            -707 <= v.y <= 707,
            -350 <= s <= 350,
    ;
    if -350 <= v.y <= 350 {
        assert(v.x * v.x + (v.y + s) * (v.y + s) >= 107_600) by (nonlinear_arith)
            requires
                v.x * v.x + v.y * v.y >= 480_000,
                -350 <= v.y <= 350,
    ;
    } else {
        assert(v.x * v.x + (v.y + s) * (v.y + s) >= 107_600) by (nonlinear_arith)
            requires
                v.x * v.x + v.y * v.y >= 480_000,
                -707 <= v.y <= 707,
                (v.y < -350 || v.y > 350),
                -350 <= s <= 350,
        ;
    }
}

/// The square-root floor of a squared magnitude in the band of
/// `lemma_mirror_spin_norm_bounds` lies between 328 and 1095.
pub proof fn lemma_norm_sqrt_band(n: int)
    requires
        107_600 <= n <= 1_200_000,
    ensures
        is_sqrt_floor(n, sqrt_floor(n)),
        328 <= sqrt_floor(n) <= 1095,
{
    lemma_sqrt_floor_exists(n);
    let l = sqrt_floor(n);
    if l <= 327 {
        assert((l + 1) * (l + 1) <= 328 * 328) by (nonlinear_arith)
            requires
                0 <= l + 1 <= 328,
        ;
        assert(false);
    }
    if l >= 1096 {
        assert(l * l >= 1096 * 1096) by (nonlinear_arith)
            requires
                l >= 1096,
        ;
        assert(false);
    }
}

/// Rescaling a vector of magnitude-floor `l` in the band of
/// `lemma_norm_sqrt_band` lands its squared magnitude within 3000 of
/// the target squared speed, with each component below 767201 in
/// magnitude and keeping its sign.
pub proof fn lemma_rescale_norm(wx: int, wy: int, l: int)
    requires
        is_sqrt_floor(wx * wx + wy * wy, l),
        328 <= l <= 1095,
    ensures
        487_000 <= scaled_component(wx, l) * scaled_component(wx, l) + scaled_component(
            wy,
            l,
        ) * scaled_component(wy, l) <= 493_000,
        -767_200 <= scaled_component(wx, l) <= 767_200,
        -767_200 <= scaled_component(wy, l) <= 767_200,
        wx >= 0 ==> scaled_component(wx, l) >= 0,
        wx <= 0 ==> scaled_component(wx, l) <= 0,
        wy >= 0 ==> scaled_component(wy, l) >= 0,
        wy <= 0 ==> scaled_component(wy, l) <= 0,
{
    let n = wx * wx + wy * wy;
    let mx = if wx >= 0 { wx } else { -wx };
    let my = if wy >= 0 { wy } else { -wy };
    assert(mx * mx == wx * wx && my * my == wy * wy) by (nonlinear_arith)
        requires
            (mx == wx || mx == -wx) && (my == wy || my == -wy),
    ;
    assert((l + 1) * (l + 1) == l * l + 2 * l + 1) by (nonlinear_arith);
    assert(l * l <= n <= l * l + 2 * l);
    // Component magnitudes are below l + 1.
    assert(mx * mx <= 1_201_215 && my * my <= 1_201_215) by (nonlinear_arith)
        requires
            0 <= mx * mx && 0 <= my * my && mx * mx + my * my <= l * l + 2 * l && 0 <= l
                <= 1095,
    ;
    assert(mx <= 1096 && my <= 1096) by (nonlinear_arith)
        requires
            0 <= mx && 0 <= my && mx * mx <= 1_201_215 && my * my <= 1_201_215,
    ;
    let ax = mx * BALL_SPEED;
    let ay = my * BALL_SPEED;
    assert(BALL_SPEED == 700);
    assert(0 <= ax <= 767_200 && 0 <= ay <= 767_200) by (nonlinear_arith)
        requires
            0 <= mx <= 1096 && 0 <= my <= 1096 && ax == mx * 700 && ay == my * 700,
    ;
    let qx = ax / l;
    let qy = ay / l;
    lemma_div_pos_is_pos(ax, l);
    lemma_div_pos_is_pos(ay, l);
    lemma_div_nonincreasing(ax, l);
    lemma_div_nonincreasing(ay, l);
    lemma_fundamental_div_mod(ax, l);
    lemma_fundamental_div_mod(ay, l);
    lemma_mod_bound(ax, l);
    lemma_mod_bound(ay, l);
    let ex = ax % l;
    let ey = ay % l;
    assert(qx * l == ax - ex) by (nonlinear_arith)
        requires
            ax == l * qx + ex,
    ;
    assert(qy * l == ay - ey) by (nonlinear_arith)
        requires
            ay == l * qy + ey,
    ;
    // The squared magnitude scales like n / l^2, which the band on n
    // pins between 487000 and 493000 after rounding.
    assert(ax * ax + ay * ay == 490_000 * n) by (nonlinear_arith)
        requires
            ax == mx * 700 && ay == my * 700 && n == mx * mx + my * my,
    ;
    // Upper bound.
    assert((qx * l) * (qx * l) <= ax * ax) by (nonlinear_arith)
        requires
            0 <= qx * l <= ax,
    ;
    assert((qy * l) * (qy * l) <= ay * ay) by (nonlinear_arith)
        requires
            0 <= qy * l <= ay,
    ;
    assert((qx * qx + qy * qy) * (l * l) == (qx * l) * (qx * l) + (qy * l) * (qy * l))
        by (nonlinear_arith);
    assert((qx * qx + qy * qy) * (l * l) <= 490_000 * (l * l) + 980_000 * l)
        by (nonlinear_arith)
        requires
            (qx * qx + qy * qy) * (l * l) <= 490_000 * n && n <= l * l + 2 * l,
    ;
    assert(qx * qx + qy * qy <= 493_000) by (nonlinear_arith)
        requires
            (qx * qx + qy * qy) * (l * l) <= 490_000 * (l * l) + 980_000 * l,
            328 <= l,
            0 <= qx * qx + qy * qy,
    ;
    // Lower bound.
    assert((qx * l) * (qx * l) >= ax * ax - 2 * (ax * l)) by (nonlinear_arith)
        requires
            qx * l == ax - ex && 0 <= ex < l && 0 <= ax,
    ;
    assert((qy * l) * (qy * l) >= ay * ay - 2 * (ay * l)) by (nonlinear_arith)
        requires
            qy * l == ay - ey && 0 <= ey < l && 0 <= ay,
    ;
    assert((mx + my) * (mx + my) <= 2 * n) by (nonlinear_arith)
        requires
            n == mx * mx + my * my,
    ;
    assert(700 * (mx + my) <= 1_500 * l) by (nonlinear_arith)
        requires
            (mx + my) * (mx + my) <= 2 * (l * l + 2 * l),
            0 <= mx + my,
            328 <= l <= 1095,
    ;
    assert(ax * l + ay * l <= 1_500 * (l * l)) by (nonlinear_arith)
        requires
            ax == mx * 700 && ay == my * 700 && 700 * (mx + my) <= 1_500 * l && 0 <= l,
    ;
    assert((qx * qx + qy * qy) * (l * l) >= 487_000 * (l * l)) by (nonlinear_arith)
        requires
            (qx * qx + qy * qy) * (l * l) >= 490_000 * n - 2 * (ax * l + ay * l),
            ax * l + ay * l <= 1_500 * (l * l),
            n >= l * l,
    ;
    assert(qx * qx + qy * qy >= 487_000) by (nonlinear_arith)
        requires
            (qx * qx + qy * qy) * (l * l) >= 487_000 * (l * l),
            328 <= l,
    ;
    // Tie the magnitudes back to the signed components.
    assert(scaled_component(wx, l) == if wx >= 0 { qx } else { -qx });
    assert(scaled_component(wy, l) == if wy >= 0 { qy } else { -qy });
    assert(scaled_component(wx, l) * scaled_component(wx, l) == qx * qx
        && scaled_component(wy, l) * scaled_component(wy, l) == qy * qy)
        by (nonlinear_arith)
        requires
            (scaled_component(wx, l) == qx || scaled_component(wx, l) == -qx)
                && (scaled_component(wy, l) == qy || scaled_component(wy, l) == -qy),
    ;
}

/// The angle clamp always yields a velocity within the maximum angle.
pub proof fn lemma_clamp_angle_within_max(x: int, y: int)
    ensures
        ({
            let (a, b) = clamp_angle_spec(x, y);
            b * b <= MAX_ANGLE_TAN_SQ * (a * a)
        }),
{
    if y * y <= MAX_ANGLE_TAN_SQ * (x * x) {
    } else {
        assert(x * x >= 0 && y * y >= 0) by (nonlinear_arith);
        let n = x * x + y * y;
        lemma_sqrt_floor_exists(n);
        let l = sqrt_floor(n);
        let xm = l / 2;
        lemma_div_pos_is_pos(l, 2);
        assert(xm * xm >= 0) by (nonlinear_arith);
        lemma_sqrt_floor_exists(MAX_ANGLE_TAN_SQ * (xm * xm));
        let ym = sqrt_floor(MAX_ANGLE_TAN_SQ * (xm * xm));
        let a = if x >= 0 { xm } else { -xm };
        let b = if y >= 0 { ym } else { -ym };
        assert(b * b <= MAX_ANGLE_TAN_SQ * (a * a)) by (nonlinear_arith)
            requires
                ym * ym <= 3 * (xm * xm) && (a == xm || a == -xm) && (b == ym || b == -ym),
        ;
    }
}

/// On a velocity whose squared magnitude lies in the band that
/// `lemma_rescale_norm` establishes, the angle clamp keeps the squared
/// magnitude within the configured tolerance of the target, and keeps
/// the sign of a nonzero horizontal component.
pub proof fn lemma_clamp_angle_norm(x: int, y: int)
    requires
        487_000 <= x * x + y * y <= 493_000,
    ensures
        ({
            let (a, b) = clamp_angle_spec(x, y);
            480_000 <= a * a + b * b <= 500_000
        }),
        x > 0 ==> clamp_angle_spec(x, y).0 > 0,
        x < 0 ==> clamp_angle_spec(x, y).0 < 0,
{
    if y * y <= MAX_ANGLE_TAN_SQ * (x * x) {
    } else {
        let n = x * x + y * y;
        lemma_sqrt_floor_exists(n);
        let l = sqrt_floor(n);
        if l <= 696 {
            assert((l + 1) * (l + 1) <= 697 * 697) by (nonlinear_arith)
                requires
                    0 <= l + 1 <= 697,
            ;
            assert(false);
        }
        if l >= 703 {
            assert(l * l >= 703 * 703) by (nonlinear_arith)
                requires
                    l >= 703,
            ;
            assert(false);
        }
        let xm = l / 2;
        lemma_div_is_ordered(697, l, 2);
        lemma_div_is_ordered(l, 702, 2);
        vstd::arithmetic::div_mod::lemma_fundamental_div_mod_converse(697, 2, 348, 1);
        vstd::arithmetic::div_mod::lemma_fundamental_div_mod_converse(702, 2, 351, 0);
        assert(348 <= xm <= 351);
        assert(121_104 <= xm * xm <= 123_201) by (nonlinear_arith)
            requires
                348 <= xm <= 351,
        ;
        let t = MAX_ANGLE_TAN_SQ * (xm * xm);
        assert(MAX_ANGLE_TAN_SQ == 3);
        assert(363_312 <= t <= 369_603);
        lemma_sqrt_floor_exists(t);
        let ym = sqrt_floor(t);
        if ym >= 608 {
            assert(ym * ym >= 608 * 608) by (nonlinear_arith)
                requires
                    ym >= 608,
            ;
            assert(false);
        }
        if ym <= 601 {
            assert((ym + 1) * (ym + 1) <= 602 * 602) by (nonlinear_arith)
                requires
                    0 <= ym + 1 <= 602,
            ;
            assert(false);
        }
        assert(602 <= ym <= 607);
        assert((ym + 1) * (ym + 1) == ym * ym + 2 * ym + 1) by (nonlinear_arith);
        assert(ym * ym >= t - 2 * ym - 1);
        let a = if x >= 0 { xm } else { -xm };
        let b = if y >= 0 { ym } else { -ym };
        assert(a * a == xm * xm && b * b == ym * ym) by (nonlinear_arith)
            requires
                (a == xm || a == -xm) && (b == ym || b == -ym),
        ;
        assert(480_000 <= a * a + b * b <= 500_000);
    }
}

/// The whole paddle-bounce response keeps the ball's squared speed
/// within the configured tolerance of the target squared speed.
pub proof fn lemma_bounce_keeps_speed(v: Vec2, dy: int)
    requires
        speed_within_tolerance(v),
    ensures
        ({
            let (bx, by) = bounce_spec(v, dy);
            BALL_SPEED * BALL_SPEED - SPEED_SQ_TOLERANCE <= bx * bx + by * by
                <= BALL_SPEED * BALL_SPEED + SPEED_SQ_TOLERANCE
        }),
{
    lemma_spin_term_bounded(dy);
    let s = spin_term(dy);
    lemma_mirror_spin_norm_bounds(v, s);
    let wx = -v.x as int;
    let wy = v.y + s;
    assert(wx * wx == v.x * v.x) by (nonlinear_arith)
        requires
            wx == -v.x as int,
    ;
    let n = wx * wx + wy * wy;
    assert(107_600 <= n <= 1_200_000);
    lemma_norm_sqrt_band(n);
    let l = sqrt_floor(n);
    lemma_rescale_norm(wx, wy, l);
    lemma_clamp_angle_norm(scaled_component(wx, l), scaled_component(wy, l));
}

/// A bounce off a paddle sends the ball back: a velocity that obeys
/// the in-play invariant and moves leftward leaves the bounce moving
/// rightward, and symmetrically. With the re-trigger guard of the
/// collision system, which only reflects a ball moving toward the
/// paddle, a ball overlapping a paddle across consecutive ticks is
/// reflected at most once per approach.
pub proof fn lemma_bounce_reverses_horizontal(v: Vec2, dy: int)
    requires
        speed_within_tolerance(v),
        angle_within_max(v),
        v.x != 0,
    ensures
        v.x < 0 ==> bounce_spec(v, dy).0 > 0,
        v.x > 0 ==> bounce_spec(v, dy).0 < 0,
{
    assert(v.x * v.x >= 120_000) by (nonlinear_arith)
        requires
            v.y * v.y <= 3 * (v.x * v.x),
            v.x * v.x + v.y * v.y >= 480_000,
    ;
    assert(v.x >= 347 || v.x <= -347) by (nonlinear_arith)
        requires
            v.x * v.x >= 120_000,
    ;
    lemma_spin_term_bounded(dy);
    let s = spin_term(dy);
    lemma_mirror_spin_norm_bounds(v, s);
    let wx = -v.x as int;
    let wy = v.y + s;
    assert(wx * wx == v.x * v.x) by (nonlinear_arith)
        requires
            wx == -v.x as int,
    ;
    let n = wx * wx + wy * wy;
    lemma_norm_sqrt_band(n);
    let l = sqrt_floor(n);
    lemma_rescale_norm(wx, wy, l);
    let mx = if wx >= 0 { wx } else { -wx };
    assert(mx >= 347);
    let ax = mx * BALL_SPEED;
    assert(BALL_SPEED == 700);
    assert(ax >= 242_900);
    lemma_div_is_ordered(242_900, ax, l);
    lemma_div_is_ordered_by_denominator(242_900, l, 1095);
    vstd::arithmetic::div_mod::lemma_fundamental_div_mod_converse(242_900, 1095, 221, 905);
    assert(ax / l >= 221);
    let rx = scaled_component(wx, l);
    let ry = scaled_component(wy, l);
    assert(rx == if wx >= 0 { ax / l } else { -(ax / l) });
    lemma_clamp_angle_norm(rx, ry);
    if v.x < 0 {
        assert(rx >= 221);
    } else {
        assert(rx <= -221);
    }
}

/// The whole paddle-bounce response obeys the maximum-angle bound.
pub proof fn lemma_bounce_angle_within_max(v: Vec2, dy: int)
    ensures
        ({
            let (bx, by) = bounce_spec(v, dy);
            by * by <= MAX_ANGLE_TAN_SQ * (bx * bx)
        }),
{
    let wx = -v.x as int;
    let wy = v.y + spin_term(dy);
    if wx == 0 && wy == 0 {
    } else {
        let l = sqrt_floor(wx * wx + wy * wy);
        lemma_clamp_angle_within_max(scaled_component(wx, l), scaled_component(wy, l));
    }
}

/// The bounce response for a ball hitting a paddle whose center is at
/// height `paddle_y` while the ball's center is at height `ball_y`:
/// the horizontal velocity is mirrored, spin proportional to the
/// normalized hit offset is added, the vector is rescaled to the ball
/// speed, and the launch angle is clamped. The result keeps the
/// in-play speed and angle invariants.
pub fn paddle_bounce(velocity: Vec2, ball_y: i64, paddle_y: i64) -> (r: Vec2)
    requires
        speed_within_tolerance(velocity),
        -POSITION_LIMIT <= ball_y <= POSITION_LIMIT,
        -POSITION_LIMIT <= paddle_y <= POSITION_LIMIT,
    ensures
        r.x as int == bounce_spec(velocity, ball_y - paddle_y).0,
        r.y as int == bounce_spec(velocity, ball_y - paddle_y).1,
        speed_within_tolerance(r),
        angle_within_max(r),
{
    proof {
        lemma_velocity_component_bounds(velocity);
        assert(BALL_SPEED * SPIN_FACTOR_NUMER == 700);
        assert(PADDLE_HALF_HEIGHT * SPIN_FACTOR_DENOM == 120_000);
    }
    let dy: i64 = ball_y - paddle_y;
    proof {
        lemma_spin_term_bounded(dy as int);
    }
    let dy_c: i64 = clamp_i64(dy, -PADDLE_HALF_HEIGHT, PADDLE_HALF_HEIGHT);
    let dy_mag: u64 = (if dy_c < 0 {
        -dy_c
    } else {
        dy_c
    }) as u64;
    let factor: u64 = (BALL_SPEED * SPIN_FACTOR_NUMER) as u64;
    let divisor: u64 = (PADDLE_HALF_HEIGHT * SPIN_FACTOR_DENOM) as u64;
    let spin_mag: u64 = (dy_mag * factor) / divisor;
    proof {
        lemma_div_pos_is_pos(dy_mag as int * factor as int, divisor as int);
        lemma_div_is_ordered(dy_mag as int * factor as int, 42_000_000, divisor as int);
        vstd::arithmetic::div_mod::lemma_fundamental_div_mod_converse(
            42_000_000,
            120_000,
            350,
            0,
        );
    }
    let spin: i64 = if dy_c < 0 {
        -(spin_mag as i64)
    } else {
        spin_mag as i64
    };
    assert(spin as int == spin_term(dy as int));
    let wx: i64 = -velocity.x;
    let wy: i64 = velocity.y + spin;
    proof {
        lemma_mirror_spin_norm_bounds(velocity, spin as int);
        assert(wx * wx == velocity.x * velocity.x) by (nonlinear_arith)
            requires
                wx == -velocity.x as int,
        ;
        assert(0 <= wx * wx <= 500_000 && 0 <= wy * wy <= 1_200_000) by (nonlinear_arith)
            requires
                -707 <= wx <= 707 && -1057 <= wy <= 1057,
        ;
    }
    let nsq: i64 = wx * wx + wy * wy;
    assert(107_600 <= nsq <= 1_200_000);
    proof {
        lemma_norm_sqrt_band(nsq as int);
    }
    let l: u64 = isqrt(nsq as u64);
    assert(328 <= l <= 1095);
    proof {
        lemma_rescale_norm(wx as int, wy as int, l as int);
    }
    let mx: u64 = (if wx < 0 {
        -wx
    } else {
        wx
    }) as u64;
    let my: u64 = (if wy < 0 {
        -wy
    } else {
        wy
    }) as u64;
    let speed_u: u64 = BALL_SPEED as u64;
    let qx: u64 = (mx * speed_u) / l;
    let qy: u64 = (my * speed_u) / l;
    proof {
        lemma_div_pos_is_pos(mx as int * 700, l as int);
        lemma_div_pos_is_pos(my as int * 700, l as int);
        lemma_div_nonincreasing(mx as int * 700, l as int);
        lemma_div_nonincreasing(my as int * 700, l as int);
        assert(mx as int * 700 <= 767_200 && my as int * 700 <= 767_200)
            by (nonlinear_arith)
            requires
                0 <= mx <= 1096 && 0 <= my <= 1096,
        ;
    }
    let rx: i64 = if wx < 0 {
        -(qx as i64)
    } else {
        qx as i64
    };
    let ry: i64 = if wy < 0 {
        -(qy as i64)
    } else {
        qy as i64
    };
    assert(rx as int == scaled_component(wx as int, l as int));
    assert(ry as int == scaled_component(wy as int, l as int));
    let r = clamp_velocity_angle(Vec2 { x: rx, y: ry });
    proof {
        lemma_bounce_keeps_speed(velocity, dy as int);
        lemma_bounce_angle_within_max(velocity, dy as int);
    }
    r
}

} // verus!
