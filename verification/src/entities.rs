use vstd::prelude::*;
use crate::geom::{Vec2, in_space};
use crate::units::{VEL_CAP, PADDLE_Y, PARTICLE_LIFETIME_MS};

verus! {

/// Velocity components inside the simulation's speed cap.
pub open spec fn vel_ok(v: Vec2) -> bool {
    &&& -VEL_CAP <= v.x <= VEL_CAP
    &&& -VEL_CAP <= v.y <= VEL_CAP
}

/// The player's paddle. Its vertical position is fixed; its width is the
/// base width scaled by the current paddle size modifier.
#[derive(Clone, Copy, Debug, PartialEq, Eq, Structural)]
pub struct Paddle {
    pub pos: Vec2,
}

impl Paddle {
    pub open spec fn wf(self) -> bool {
        &&& in_space(self.pos)
        &&& self.pos.y == PADDLE_Y
        &&& -450_000 <= self.pos.x <= 450_000
    }
}

/// A ball, one or more of which may be live at a time.
#[derive(Clone, Copy, Debug, PartialEq, Eq, Structural)]
pub struct Ball {
    pub pos: Vec2,
    pub vel: Vec2,
}

impl Ball {
    pub open spec fn wf(self) -> bool {
        &&& in_space(self.pos)
        &&& vel_ok(self.vel)
    }
}

/// The three brick kinds.
#[derive(Clone, Copy, Debug, PartialEq, Eq, Structural)]
pub enum BrickType {
    Normal,
    Hard,
    Unbreakable,
}

/// A brick. Breakable bricks carry their remaining health; Unbreakable
/// bricks carry the sentinel health -1, which is never decremented.
#[derive(Clone, Copy, Debug, PartialEq, Eq, Structural)]
pub struct Brick {
    pub pos: Vec2,
    pub brick_type: BrickType,
    pub health: i32,
}

impl Brick {
    pub open spec fn breakable(self) -> bool {
        !(self.brick_type is Unbreakable)
    }

    pub open spec fn wf(self) -> bool {
        &&& in_space(self.pos)
        &&& if self.brick_type is Unbreakable {
            self.health == -1
        } else {
            1 <= self.health <= 3
        }
    }
}

/// A falling power-up capsule.
#[derive(Clone, Copy, Debug, PartialEq, Eq, Structural)]
pub struct PowerUp {
    pub pos: Vec2,
    pub vel: Vec2,
    pub power_type: crate::effects::PowerUpType,
}

impl PowerUp {
    pub open spec fn wf(self) -> bool {
        &&& in_space(self.pos)
        &&& vel_ok(self.vel)
    }
}

/// A laser bolt rising from the paddle.
#[derive(Clone, Copy, Debug, PartialEq, Eq, Structural)]
pub struct Laser {
    pub pos: Vec2,
    pub vel: Vec2,
}

impl Laser {
    pub open spec fn wf(self) -> bool {
        &&& in_space(self.pos)
        &&& vel_ok(self.vel)
    }
}

/// A short-lived debris particle from a destroyed brick.
#[derive(Clone, Copy, Debug, PartialEq, Eq, Structural)]
pub struct Particle {
    pub pos: Vec2,
    pub vel: Vec2,
    pub lifetime_ms: i64,
}

impl Particle {
    pub open spec fn wf(self) -> bool {
        &&& in_space(self.pos)
        &&& vel_ok(self.vel)
        &&& -100_000_000 <= self.lifetime_ms <= PARTICLE_LIFETIME_MS
    }
}

} // verus!
