use breakout_core::collision::{brick_bounce, paddle_bounce, resolve_walls};
use breakout_core::entities::{Ball, Brick, BrickType, Laser, Particle, PowerUp};
use breakout_core::geom::{Collision, Vec2};
use breakout_core::world::World;

fn playing_world() -> World {
    let mut w = World::new();
    w.state = breakout_core::flow::GameState::Playing;
    w.paddle = Some(breakout_core::entities::Paddle {
        pos: Vec2 { x: 0, y: -250_000 },
    });
    w.game_initialized = true;
    w
}

#[test]
fn wall_reflection_left_points_back_into_field() {
    // A ball past the left wall is clamped onto it and its x velocity
    // points rightward afterwards.
    let b = Ball {
        pos: Vec2 { x: -445_000, y: 0 },
        vel: Vec2 { x: -300_000, y: 100_000 },
    };
    let r = resolve_walls(b);
    assert_eq!(r.pos.x, -440_000);
    assert_eq!(r.vel.x, 300_000);
    assert_eq!(r.vel.y, 100_000);
}

#[test]
fn wall_reflection_right_and_top() {
    let b = Ball {
        pos: Vec2 { x: 441_000, y: 295_000 },
        vel: Vec2 { x: 250_000, y: 350_000 },
    };
    let r = resolve_walls(b);
    assert_eq!(r.pos.x, 440_000);
    assert_eq!(r.vel.x, -250_000);
    assert_eq!(r.pos.y, 290_000);
    assert_eq!(r.vel.y, -350_000);
}

#[test]
fn paddle_center_hit_goes_straight_up() {
    // A hit exactly at the paddle center leaves no sideways speed and
    // flips the vertical speed upward, magnitude kept.
    let b = Ball {
        pos: Vec2 { x: 0, y: -240_000 },
        vel: Vec2 { x: 123_000, y: -400_000 },
    };
    let r = paddle_bounce(b, Collision::Top, 0, 120_000);
    assert_eq!(r.vel.x, 0);
    assert_eq!(r.vel.y, 400_000);
}

#[test]
fn paddle_edge_hit_angles_sideways() {
    // Half a paddle-half off center gives half of three quarters of the
    // base speed.
    let b = Ball {
        pos: Vec2 { x: 30_000, y: -240_000 },
        vel: Vec2 { x: 0, y: -400_000 },
    };
    let r = paddle_bounce(b, Collision::Bottom, 0, 120_000);
    assert_eq!(r.vel.x, 150_000);
    assert_eq!(r.vel.y, 400_000);
}

#[test]
fn paddle_side_hit_flips_x() {
    let b = Ball {
        pos: Vec2 { x: -64_000, y: -245_000 },
        vel: Vec2 { x: 200_000, y: -100_000 },
    };
    let r = paddle_bounce(b, Collision::Left, 0, 120_000);
    assert_eq!(r.vel.x, -200_000);
    assert_eq!(r.vel.y, -100_000);
}

#[test]
fn brick_bounce_flips_one_component() {
    let b = Ball {
        pos: Vec2 { x: 0, y: 0 },
        vel: Vec2 { x: 10_000, y: -20_000 },
    };
    let r = brick_bounce(b, Collision::Right);
    assert_eq!(r.vel.x, -10_000);
    assert_eq!(r.vel.y, -20_000);
    let r2 = brick_bounce(b, Collision::Top);
    assert_eq!(r2.vel.x, 10_000);
    assert_eq!(r2.vel.y, 20_000);
}

#[test]
fn ball_movement_scales_by_both_modifiers() {
    let mut w = playing_world();
    w.balls.push(Ball {
        pos: Vec2 { x: 0, y: 0 },
        vel: Vec2 { x: 100_000, y: -200_000 },
    });
    w.effects.ball_speed_modifier = 1300;
    w.settings.ball_speed_modifier = 1000;
    w.ball_movement(100);
    assert_eq!(w.balls[0].pos.x, 13_000);
    assert_eq!(w.balls[0].pos.y, -26_000);
    assert_eq!(w.balls[0].vel.x, 100_000);
}

#[test]
fn paddle_movement_clamps_at_field_edge() {
    let mut w = playing_world();
    if let Some(p) = &mut w.paddle {
        p.pos.x = 385_000;
    }
    // Base width 120 units: the boundary sits at 450 - 60 = 390 units.
    w.paddle_movement(false, true, 1000);
    assert_eq!(w.paddle.as_ref().unwrap().pos.x, 390_000);
    w.paddle_movement(true, false, 100);
    assert_eq!(w.paddle.as_ref().unwrap().pos.x, 330_000);
}

#[test]
fn laser_movement_despawns_above_field() {
    let mut w = playing_world();
    w.lasers.push(Laser {
        pos: Vec2 { x: 0, y: 340_000 },
        vel: Vec2 { x: 0, y: 600_000 },
    });
    w.lasers.push(Laser {
        pos: Vec2 { x: 0, y: 0 },
        vel: Vec2 { x: 0, y: 600_000 },
    });
    w.laser_movement(100);
    assert_eq!(w.lasers.len(), 1);
    assert_eq!(w.lasers[0].pos.y, 60_000);
}

#[test]
fn powerup_movement_despawns_below_field() {
    let mut w = playing_world();
    w.powerups.push(PowerUp {
        pos: Vec2 { x: 0, y: -345_000 },
        vel: Vec2 { x: 0, y: -150_000 },
        power_type: breakout_core::effects::PowerUpType::LaserGun,
    });
    w.powerup_movement(100);
    assert_eq!(w.powerups.len(), 0);
}

#[test]
fn particles_age_and_despawn() {
    let mut w = playing_world();
    w.particles.push(Particle {
        pos: Vec2 { x: 0, y: 0 },
        vel: Vec2 { x: 10_000, y: 0 },
        lifetime_ms: 1000,
    });
    w.particle_system(400);
    assert_eq!(w.particles.len(), 1);
    assert_eq!(w.particles[0].lifetime_ms, 600);
    assert_eq!(w.particles[0].pos.x, 4_000);
    w.particle_system(600);
    assert_eq!(w.particles.len(), 0);
}

#[test]
fn unbreakable_brick_survives_any_number_of_ball_hits() {
    // The ball bounces off an Unbreakable brick; its health and the
    // store never change, however often it is struck.
    let mut w = playing_world();
    w.balls.push(Ball {
        pos: Vec2 { x: 0, y: -20_000 },
        vel: Vec2 { x: 0, y: 300_000 },
    });
    w.bricks.push(Brick {
        pos: Vec2 { x: 0, y: 0 },
        brick_type: BrickType::Unbreakable,
        health: -1,
    });
    for _ in 0..5 {
        w.ball_collision();
        assert_eq!(w.bricks.len(), 1);
        assert_eq!(w.bricks[0].health, -1);
        assert!(matches!(w.bricks[0].brick_type, BrickType::Unbreakable));
        assert_eq!(w.score, 0);
    }
}

#[test]
fn ball_bounces_off_unbreakable_then_breaks_later_brick_same_scan() {
    // An Unbreakable hit never ends the per-ball scan: the ball can
    // still damage a breakable brick found later in the same pass.
    let mut w = playing_world();
    w.balls.push(Ball {
        pos: Vec2 { x: 0, y: -20_000 },
        vel: Vec2 { x: 0, y: 300_000 },
    });
    w.bricks.push(Brick {
        pos: Vec2 { x: 0, y: 0 },
        brick_type: BrickType::Unbreakable,
        health: -1,
    });
    // The same spot, so the ball overlaps it too after the bounce.
    w.bricks.push(Brick {
        pos: Vec2 { x: 0, y: 0 },
        brick_type: BrickType::Normal,
        health: 1,
    });
    w.ball_collision();
    assert_eq!(w.bricks.len(), 1);
    assert!(matches!(w.bricks[0].brick_type, BrickType::Unbreakable));
    assert_eq!(w.score, 10);
}
