use vstd::prelude::*;

verus! {

/// The kinds of power-up that can drop from a destroyed brick.
#[derive(Clone, Copy, Debug, PartialEq, Eq, Structural)]
pub enum PowerUpType {
    PaddleExpand,
    PaddleShrink,
    BallSpeedUp,
    BallSpeedDown,
    MultiBall,
    PenetratingBall,
    LaserGun,
}

/// Time-decaying modifiers applied to paddle, ball and weapon behaviour.
/// The size and speed modifiers are thousandths (1000 = 1.0); the timers
/// are milliseconds.
#[derive(Clone, Copy, Debug, PartialEq, Eq, Structural)]
pub struct PowerUpEffects {
    pub paddle_size_modifier: i64,
    pub ball_speed_modifier: i64,
    pub penetrating_ball: bool,
    pub penetrating_timer_ms: i64,
    pub has_laser: bool,
    pub laser_timer_ms: i64,
}

impl PowerUpEffects {
    /// The neutral state: both modifiers 1.0, no timed effect.
    pub open spec fn spec_default() -> PowerUpEffects {
        PowerUpEffects {
            paddle_size_modifier: 1000,
            ball_speed_modifier: 1000,
            penetrating_ball: false,
            penetrating_timer_ms: 0,
            has_laser: false,
            laser_timer_ms: 0,
        }
    }

    /// The paddle size modifier stays within half and two-and-a-half times
    /// the base width; the ball speed modifier within half and double
    /// speed; the timers stay bounded.
    pub open spec fn wf(self) -> bool {
        &&& 500 <= self.paddle_size_modifier <= 2500
        &&& 500 <= self.ball_speed_modifier <= 2000
        &&& -2_000_000 <= self.penetrating_timer_ms <= 100_000_000
        &&& -2_000_000 <= self.laser_timer_ms <= 100_000_000
        &&& self.penetrating_ball ==> self.penetrating_timer_ms > 0
        &&& self.has_laser ==> self.laser_timer_ms > 0
    }
}

impl Default for PowerUpEffects {
    fn default() -> (r: PowerUpEffects)
        ensures
            r == PowerUpEffects::spec_default(),
            r.wf(),
    {
        PowerUpEffects {
            paddle_size_modifier: 1000,
            ball_speed_modifier: 1000,
            penetrating_ball: false,
            penetrating_timer_ms: 0,
            has_laser: false,
            laser_timer_ms: 0,
        }
    }
}

/// The paddle size modifier after one expand (times 1.5) or shrink
/// (times 0.7) pickup, clamped to [500, 2500] thousandths.
pub open spec fn paddle_pickup(m: int, expand: bool) -> int {
    if expand {
        let grown = m * 1500 / 1000;
        if grown > 2500 {
            2500
        } else {
            grown
        }
    } else {
        let shrunk = m * 700 / 1000;
        if shrunk < 500 {
            500
        } else {
            shrunk
        }
    }
}

/// The ball speed modifier after one speed-up (times 1.3) or slow-down
/// (times 0.7) pickup, clamped to [500, 2000] thousandths.
pub open spec fn speed_pickup(m: int, up: bool) -> int {
    if up {
        let faster = m * 1300 / 1000;
        if faster > 2000 {
            2000
        } else {
            faster
        }
    } else {
        let slower = m * 700 / 1000;
        if slower < 500 {
            500
        } else {
            slower
        }
    }
}

/// After any sequence of expand and shrink pickups the paddle width stays
/// within [0.5, 2.5] times its base: one pickup maps the valid range into
/// itself, so by induction every chain of pickups does.
pub proof fn lemma_paddle_pickup_bounded(m: int, expand: bool)
    requires
        500 <= m <= 2500,
    ensures
        500 <= paddle_pickup(m, expand) <= 2500,
{
}

/// The same closure property for the ball speed modifier: one pickup maps
/// [0.5x, 2.0x] into itself.
pub proof fn lemma_speed_pickup_bounded(m: int, up: bool)
    requires
        500 <= m <= 2000,
    ensures
        500 <= speed_pickup(m, up) <= 2000,
{
}

} // verus!
