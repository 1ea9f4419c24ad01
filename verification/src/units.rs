use vstd::prelude::*;

verus! {

// Play-field geometry, in milli-units (thousandths of a world unit).
pub const WINDOW_WIDTH: i64 = 900_000;
pub const WINDOW_HEIGHT: i64 = 600_000;

// Paddle.
pub const PADDLE_WIDTH: i64 = 120_000;
pub const PADDLE_HEIGHT: i64 = 20_000;
pub const PADDLE_SPEED: i64 = 500_000;
pub const PADDLE_Y: i64 = -250_000;

// Ball.
pub const BALL_SIZE: i64 = 20_000;
pub const BALL_SPEED: i64 = 400_000;
pub const BALL_SPAWN_Y: i64 = -200_000;

// Bricks.
pub const BRICK_WIDTH: i64 = 75_000;
pub const BRICK_HEIGHT: i64 = 30_000;
pub const BRICK_ROWS: usize = 6;
pub const BRICK_COLUMNS: usize = 10;
pub const GAP_SIZE: i64 = 5_000;

// Lasers.
pub const LASER_WIDTH: i64 = 5_000;
pub const LASER_HEIGHT: i64 = 20_000;
pub const LASER_SPEED: i64 = 600_000;

// Power-ups.
pub const POWERUP_WIDTH: i64 = 30_000;
pub const POWERUP_HEIGHT: i64 = 15_000;
pub const POWERUP_FALL_SPEED: i64 = 150_000;

// Particles.
pub const PARTICLE_LIFETIME_MS: i64 = 1_000;
pub const PARTICLE_SPREAD: i64 = 200_000;

// Component of the unit diagonal (+-1, 1)/sqrt(2), in thousandths.
pub const DIAG: i64 = 707;
// Cosine and sine of the quarter-radian split angle used when an extra
// ball is cloned, in millionths.
pub const ROT_COS: i64 = 968_912;
pub const ROT_SIN: i64 = 247_404;
pub const MICRO: i64 = 1_000_000;

// Caps that keep the fixed-point arithmetic far from i64 overflow. They
// are three orders of magnitude above anything the game reaches.
pub const POS_CAP: i64 = 1_000_000_000;
pub const VEL_CAP: i64 = 8_000_000;
// Velocities scaled by the two speed modifiers stay under this bound.
pub const EFF_VEL_CAP: i64 = 32_000_000;
// A frame delta is a non-negative time; this generous cap (a thousand
// seconds) keeps the fixed-point products far inside i64.
pub const DT_CAP_MS: i64 = 1_000_000;
// Extents handed to the overlap test stay under this bound.
pub const SIZE_CAP: i64 = 1_000_000;

/// The absolute value of an integer.
pub open spec fn abs_i(a: int) -> int {
    if a >= 0 {
        a
    } else {
        -a
    }
}

/// Division rounding toward zero, as the executable `/` does on `i64`,
/// stated for positive divisors.
pub open spec fn div_tz(a: int, d: int) -> int {
    if a >= 0 {
        a / d
    } else {
        -((-a) / d)
    }
}

/// Clamp a coordinate into the simulated space.
pub open spec fn clamp_pos(p: int) -> int {
    if p < -POS_CAP {
        -POS_CAP as int
    } else if p > POS_CAP {
        POS_CAP as int
    } else {
        p
    }
}

/// One integration step of a coordinate: `p + v*dt/1000`, kept inside the
/// simulated space.
pub open spec fn step_pos(p: int, v: int, dt: int) -> int {
    clamp_pos(p + div_tz(v * dt, 1000))
}

/// A rate modifier applied to a fixed-point quantity: `v * rate / 1000`.
pub open spec fn scale_rate(v: int, rate: int) -> int {
    div_tz(v * rate, 1000)
}

/// `div_tz(a, d)` lies within `a/d` of zero: `d * |result| <= |a|`, and it
/// keeps the sign of `a`.
pub proof fn lemma_div_tz_bounds(a: int, d: int)
    requires
        d >= 1,
    ensures
        a >= 0 ==> 0 <= div_tz(a, d) && a - d < d * div_tz(a, d) <= a,
        a < 0 ==> div_tz(a, d) <= 0 && a <= d * div_tz(a, d) < a + d,
{
    if a >= 0 {
        vstd::arithmetic::div_mod::lemma_fundamental_div_mod(a, d);
        vstd::arithmetic::div_mod::lemma_div_pos_is_pos(a, d);
        vstd::arithmetic::div_mod::lemma_mod_bound(a, d);
    } else {
        vstd::arithmetic::div_mod::lemma_fundamental_div_mod(-a, d);
        vstd::arithmetic::div_mod::lemma_div_pos_is_pos(-a, d);
        vstd::arithmetic::div_mod::lemma_mod_bound(-a, d);
        let q = (-a) / d;
        assert(d * (-q) == -(d * q)) by (nonlinear_arith);
        assert(div_tz(a, d) == -q);
    }
}

/// Exec mirror of `step_pos`.
pub fn step_coord(p: i64, v: i64, dt: i64) -> (r: i64)
    requires
        -POS_CAP <= p <= POS_CAP,
        -EFF_VEL_CAP <= v <= EFF_VEL_CAP,
        0 <= dt <= DT_CAP_MS,
    ensures
        r == step_pos(p as int, v as int, dt as int),
        -POS_CAP <= r <= POS_CAP,
{
    proof {
        assert((-EFF_VEL_CAP * DT_CAP_MS) <= v * dt <= EFF_VEL_CAP * DT_CAP_MS)
            by (nonlinear_arith)
            requires
                -EFF_VEL_CAP <= v <= EFF_VEL_CAP,
                0 <= dt <= DT_CAP_MS,
        ;
        lemma_div_tz_bounds(v as int * dt as int, 1000);
    }
    let dx: i64 = (v * dt) / 1000;
    let q: i64 = p + dx;
    if q < -POS_CAP {
        -POS_CAP
    } else if q > POS_CAP {
        POS_CAP
    } else {
        q
    }
}

/// Exec mirror of `scale_rate`, with linear bounds on the result that
/// callers use to stay inside the velocity caps.
pub fn apply_rate(v: i64, rate: i64) -> (r: i64)
    requires
        -POS_CAP <= v <= POS_CAP,
        0 <= rate <= 10_000,
    ensures
        r == scale_rate(v as int, rate as int),
        v >= 0 ==> 0 <= r * 1000 <= v * rate && v * rate - 1000 < r * 1000,
        v < 0 ==> v * rate <= r * 1000 <= 0 && r * 1000 < v * rate + 1000,
{
    proof {
        assert((-POS_CAP * 10_000) <= v * rate <= POS_CAP * 10_000) by (nonlinear_arith)
            requires
                -POS_CAP <= v <= POS_CAP,
                0 <= rate <= 10_000,
        ;
        lemma_div_tz_bounds(v as int * rate as int, 1000);
        if v >= 0 {
            assert(v * rate >= 0) by (nonlinear_arith)
                requires
                    v >= 0,
                    rate >= 0,
            ;
        } else {
            assert(v * rate <= 0) by (nonlinear_arith)
                requires
                    v < 0,
                    rate >= 0,
            ;
        }
    }
    (v * rate) / 1000
}

/// A velocity component scaled by two rate modifiers in turn, as a ball's
/// stored velocity is by the power-up and the difficulty ball-speed
/// modifiers.
pub fn compose_rates(v: i64, m1: i64, m2: i64) -> (r: i64)
    requires
        -VEL_CAP <= v <= VEL_CAP,
        0 <= m1 <= 2000,
        0 <= m2 <= 2000,
    ensures
        r == scale_rate(scale_rate(v as int, m1 as int), m2 as int),
        -EFF_VEL_CAP <= r <= EFF_VEL_CAP,
{
    proof {
        assert((-VEL_CAP * 2000) <= v * m1 <= VEL_CAP * 2000) by (nonlinear_arith)
            requires
                -VEL_CAP <= v <= VEL_CAP,
                0 <= m1 <= 2000,
        ;
    }
    let s1: i64 = apply_rate(v, m1);
    proof {
        assert((-16_000_000 * 2000) <= s1 * m2 <= 16_000_000 * 2000) by (nonlinear_arith)
            requires
                -16_000_000 <= s1 <= 16_000_000,
                0 <= m2 <= 2000,
        ;
    }
    apply_rate(s1, m2)
}

} // verus!
