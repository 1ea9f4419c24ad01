use breakout_core::difficulty::{Difficulty, DifficultySettings};
use breakout_core::effects::PowerUpType;
use breakout_core::entities::{Ball, Brick, BrickType, Laser, Paddle, PowerUp};
use breakout_core::flow::GameState;
use breakout_core::geom::Vec2;
use breakout_core::world::World;

fn playing_world() -> World {
    let mut w = World::new();
    w.state = GameState::Playing;
    w.paddle = Some(Paddle {
        pos: Vec2 { x: 0, y: -250_000 },
    });
    w.game_initialized = true;
    w
}

#[test]
fn last_ball_on_last_life_ends_the_game() {
    // A 900x600 field, the only ball at (0,-295) moving (0,-400) with
    // one life left: one tick of a tenth of a second ends the game.
    let mut w = playing_world();
    w.lives = 1;
    w.balls.push(Ball {
        pos: Vec2 { x: 0, y: -295_000 },
        vel: Vec2 { x: 0, y: -400_000 },
    });
    w.bricks.push(Brick {
        pos: Vec2 { x: 0, y: 200_000 },
        brick_type: BrickType::Normal,
        health: 1,
    });
    w.tick(false, false, false, false, 100);
    assert!(matches!(w.state, GameState::GameOver));
    assert_eq!(w.lives, 1);
    // Entering the game-over state tears the play-field down.
    assert_eq!(w.balls.len(), 0);
    assert!(w.paddle.is_none());
}

#[test]
fn lost_ball_with_lives_left_respawns() {
    let mut w = playing_world();
    w.lives = 3;
    w.balls.push(Ball {
        pos: Vec2 { x: 10_000, y: -310_000 },
        vel: Vec2 { x: 0, y: -400_000 },
    });
    w.ball_collision();
    assert!(matches!(w.state, GameState::Playing));
    assert_eq!(w.lives, 2);
    assert_eq!(w.balls.len(), 1);
    assert_eq!(w.balls[0].pos.x, 0);
    assert_eq!(w.balls[0].pos.y, -200_000);
    // Fresh diagonal velocity at base speed times the Medium modifier.
    assert_eq!(w.balls[0].vel.y, 282_800);
    assert_eq!(w.balls[0].vel.x.abs(), 282_800);
}

#[test]
fn lost_ball_among_several_is_just_removed() {
    let mut w = playing_world();
    w.lives = 3;
    w.balls.push(Ball {
        pos: Vec2 { x: 0, y: -310_000 },
        vel: Vec2 { x: 0, y: -400_000 },
    });
    w.balls.push(Ball {
        pos: Vec2 { x: 50_000, y: 0 },
        vel: Vec2 { x: 100_000, y: 100_000 },
    });
    w.ball_collision();
    assert!(matches!(w.state, GameState::Playing));
    assert_eq!(w.lives, 3);
    assert_eq!(w.balls.len(), 1);
    assert_eq!(w.balls[0].pos.x, 50_000);
}

#[test]
fn ball_destroys_normal_brick_for_ten_points() {
    let mut w = playing_world();
    w.balls.push(Ball {
        pos: Vec2 { x: 0, y: -20_000 },
        vel: Vec2 { x: 0, y: 300_000 },
    });
    w.bricks.push(Brick {
        pos: Vec2 { x: 0, y: 0 },
        brick_type: BrickType::Normal,
        health: 1,
    });
    w.ball_collision();
    assert_eq!(w.bricks.len(), 0);
    assert_eq!(w.score, 10);
    // The bounce reflects the ball downward again.
    assert_eq!(w.balls[0].vel.y, -300_000);
    // The burst: ten particles at the brick's position.
    assert_eq!(w.particles.len(), 10);
    assert!(w.particles.iter().all(|p| p.pos.x == 0 && p.pos.y == 0));
    // The drop roll may or may not have produced a capsule.
    assert!(w.powerups.len() <= 1);
}

#[test]
fn hard_brick_takes_two_ball_hits() {
    let mut w = playing_world();
    w.balls.push(Ball {
        pos: Vec2 { x: 0, y: -20_000 },
        vel: Vec2 { x: 0, y: 300_000 },
    });
    w.bricks.push(Brick {
        pos: Vec2 { x: 0, y: 0 },
        brick_type: BrickType::Hard,
        health: 2,
    });
    w.ball_collision();
    assert_eq!(w.bricks.len(), 1);
    assert_eq!(w.bricks[0].health, 1);
    assert_eq!(w.score, 0);
    w.ball_collision();
    assert_eq!(w.bricks.len(), 0);
    assert_eq!(w.score, 20);
}

#[test]
fn penetrating_ball_passes_through_breakable_bricks() {
    let mut w = playing_world();
    w.effects.penetrating_ball = true;
    w.effects.penetrating_timer_ms = 10_000;
    w.balls.push(Ball {
        pos: Vec2 { x: 0, y: -20_000 },
        vel: Vec2 { x: 0, y: 300_000 },
    });
    w.bricks.push(Brick {
        pos: Vec2 { x: 0, y: 0 },
        brick_type: BrickType::Normal,
        health: 1,
    });
    w.ball_collision();
    assert_eq!(w.bricks.len(), 0);
    assert_eq!(w.score, 10);
    // No reflection: the ball keeps its velocity.
    assert_eq!(w.balls[0].vel.y, 300_000);
}

#[test]
fn laser_destroys_normal_brick_for_fifteen_points() {
    // A Normal brick with one health struck by a laser (damage two) is
    // destroyed, pays fifteen points, and the laser dies with it; no
    // power-up drops from a laser kill.
    let mut w = playing_world();
    w.lasers.push(Laser {
        pos: Vec2 { x: 0, y: -10_000 },
        vel: Vec2 { x: 0, y: 600_000 },
    });
    w.bricks.push(Brick {
        pos: Vec2 { x: 0, y: 0 },
        brick_type: BrickType::Normal,
        health: 1,
    });
    w.laser_collision();
    assert_eq!(w.bricks.len(), 0);
    assert_eq!(w.score, 15);
    assert_eq!(w.lasers.len(), 0);
    assert_eq!(w.particles.len(), 10);
    assert_eq!(w.powerups.len(), 0);
}

#[test]
fn laser_leaves_hard_brick_at_one_health_and_unbreakable_untouched() {
    let mut w = playing_world();
    w.lasers.push(Laser {
        pos: Vec2 { x: 0, y: -10_000 },
        vel: Vec2 { x: 0, y: 600_000 },
    });
    w.bricks.push(Brick {
        pos: Vec2 { x: 0, y: 0 },
        brick_type: BrickType::Hard,
        health: 3,
    });
    w.laser_collision();
    assert_eq!(w.bricks.len(), 1);
    assert_eq!(w.bricks[0].health, 1);
    assert_eq!(w.score, 0);
    assert_eq!(w.lasers.len(), 0);

    let mut w2 = playing_world();
    w2.lasers.push(Laser {
        pos: Vec2 { x: 0, y: -10_000 },
        vel: Vec2 { x: 0, y: 600_000 },
    });
    w2.bricks.push(Brick {
        pos: Vec2 { x: 0, y: 0 },
        brick_type: BrickType::Unbreakable,
        health: -1,
    });
    w2.laser_collision();
    assert_eq!(w2.bricks.len(), 1);
    assert_eq!(w2.bricks[0].health, -1);
    assert_eq!(w2.lasers.len(), 0);
    assert_eq!(w2.score, 0);
}

#[test]
fn victory_exactly_when_no_breakable_brick_remains() {
    // Fifty Unbreakable bricks and nothing else is a victory; one
    // Normal brick among them is not.
    let mut w = playing_world();
    for i in 0..50 {
        w.bricks.push(Brick {
            pos: Vec2 {
                x: -300_000 + i * 12_000,
                y: 100_000,
            },
            brick_type: BrickType::Unbreakable,
            health: -1,
        });
    }
    w.check_victory();
    assert!(matches!(w.state, GameState::Victory));

    let mut w2 = playing_world();
    w2.bricks.push(Brick {
        pos: Vec2 { x: 0, y: 0 },
        brick_type: BrickType::Normal,
        health: 1,
    });
    w2.check_victory();
    assert!(matches!(w2.state, GameState::Playing));
}

#[test]
fn empty_field_counts_as_victory() {
    let mut w = playing_world();
    w.check_victory();
    assert!(matches!(w.state, GameState::Victory));
}

#[test]
fn score_never_decreases_over_ticks() {
    let mut w = playing_world();
    w.balls.push(Ball {
        pos: Vec2 { x: 0, y: -100_000 },
        vel: Vec2 { x: 150_000, y: 200_000 },
    });
    for i in 0..30 {
        w.bricks.push(Brick {
            pos: Vec2 {
                x: -350_000 + i * 25_000,
                y: 50_000,
            },
            brick_type: BrickType::Normal,
            health: 1,
        });
    }
    let mut last = w.score;
    for _ in 0..200 {
        if !matches!(w.state, GameState::Playing) {
            break;
        }
        w.tick(false, true, false, false, 16);
        assert!(w.score >= last);
        last = w.score;
    }
}

#[test]
fn hard_timer_running_out_forces_a_loss() {
    let mut w = playing_world();
    w.settings = DifficultySettings::new(Difficulty::Hard);
    w.level_timer_ms = 150;
    w.update_level_timer(200);
    assert_eq!(w.level_timer_ms, 0);
    assert!(matches!(w.state, GameState::GameOver));

    let mut w2 = playing_world();
    w2.settings = DifficultySettings::new(Difficulty::Hard);
    w2.level_timer_ms = 1_000;
    w2.update_level_timer(200);
    assert_eq!(w2.level_timer_ms, 800);
    assert!(matches!(w2.state, GameState::Playing));

    // No countdown outside the time-limited difficulty.
    let mut w3 = playing_world();
    w3.level_timer_ms = 500;
    w3.update_level_timer(200);
    assert_eq!(w3.level_timer_ms, 500);
}

#[test]
fn powerup_timers_decay_and_clear_their_flags() {
    let mut w = playing_world();
    w.effects.has_laser = true;
    w.effects.laser_timer_ms = 300;
    w.effects.penetrating_ball = true;
    w.effects.penetrating_timer_ms = 700;
    w.update_powerup_timers(400);
    assert!(!w.effects.has_laser);
    assert!(w.effects.penetrating_ball);
    assert_eq!(w.effects.penetrating_timer_ms, 300);
    w.update_powerup_timers(400);
    assert!(!w.effects.penetrating_ball);
}

#[test]
fn laser_shooting_spawns_a_pair_from_the_paddle_edges() {
    let mut w = playing_world();
    w.effects.has_laser = true;
    w.effects.laser_timer_ms = 15_000;
    w.laser_shooting(true);
    assert_eq!(w.lasers.len(), 2);
    // Base width 120 units: offsets at a third of the width.
    assert_eq!(w.lasers[0].pos.x, -40_000);
    assert_eq!(w.lasers[1].pos.x, 40_000);
    assert_eq!(w.lasers[0].pos.y, -230_000);
    assert_eq!(w.lasers[0].vel.y, 600_000);
    // Without the effect, fire does nothing.
    let mut w2 = playing_world();
    w2.laser_shooting(true);
    assert_eq!(w2.lasers.len(), 0);
}

#[test]
fn collected_powerups_apply_their_effects() {
    // The capsule overlapping the paddle is consumed and its effect
    // lands; expand then shrink from the neutral modifier gives 1.5 x
    // 0.7 = 1.05, not 1.0: the modifiers compound and do not invert.
    let mut w = playing_world();
    w.powerups.push(PowerUp {
        pos: Vec2 { x: 0, y: -245_000 },
        vel: Vec2 { x: 0, y: -150_000 },
        power_type: PowerUpType::PaddleExpand,
    });
    w.powerup_collision();
    assert_eq!(w.powerups.len(), 0);
    assert_eq!(w.effects.paddle_size_modifier, 1500);

    w.powerups.push(PowerUp {
        pos: Vec2 { x: 0, y: -245_000 },
        vel: Vec2 { x: 0, y: -150_000 },
        power_type: PowerUpType::PaddleShrink,
    });
    w.powerup_collision();
    assert_eq!(w.effects.paddle_size_modifier, 1050);
}

#[test]
fn paddle_size_modifier_stays_clamped() {
    // Any number of expand or shrink pickups keeps the width within
    // half and two and a half times the base.
    let mut w = playing_world();
    for _ in 0..10 {
        w.powerups.push(PowerUp {
            pos: Vec2 { x: 0, y: -245_000 },
            vel: Vec2 { x: 0, y: -150_000 },
            power_type: PowerUpType::PaddleExpand,
        });
        w.powerup_collision();
        assert!(w.effects.paddle_size_modifier <= 2500);
        assert!(w.effects.paddle_size_modifier >= 500);
    }
    assert_eq!(w.effects.paddle_size_modifier, 2500);
    for _ in 0..10 {
        w.powerups.push(PowerUp {
            pos: Vec2 { x: 0, y: -245_000 },
            vel: Vec2 { x: 0, y: -150_000 },
            power_type: PowerUpType::PaddleShrink,
        });
        w.powerup_collision();
        assert!(w.effects.paddle_size_modifier >= 500);
    }
    assert_eq!(w.effects.paddle_size_modifier, 500);
}

#[test]
fn ball_speed_modifier_stays_clamped() {
    let mut w = playing_world();
    for _ in 0..10 {
        w.powerups.push(PowerUp {
            pos: Vec2 { x: 0, y: -245_000 },
            vel: Vec2 { x: 0, y: -150_000 },
            power_type: PowerUpType::BallSpeedUp,
        });
        w.powerup_collision();
        assert!(w.effects.ball_speed_modifier <= 2000);
    }
    assert_eq!(w.effects.ball_speed_modifier, 2000);
}

#[test]
fn multiball_clones_the_single_ball_twice() {
    let mut w = playing_world();
    w.balls.push(Ball {
        pos: Vec2 { x: 0, y: -100_000 },
        vel: Vec2 { x: 0, y: 400_000 },
    });
    w.powerups.push(PowerUp {
        pos: Vec2 { x: 0, y: -245_000 },
        vel: Vec2 { x: 0, y: -150_000 },
        power_type: PowerUpType::MultiBall,
    });
    w.powerup_collision();
    assert_eq!(w.balls.len(), 3);
    // The clones carry the first ball's velocity rotated a quarter radian
    // each way.
    assert_eq!(w.balls[1].vel.x, 98_961);
    assert_eq!(w.balls[1].vel.y, 387_564);
    assert_eq!(w.balls[2].vel.x, -98_961);
    assert_eq!(w.balls[2].vel.y, 387_564);

    // With two or more balls live the capsule fizzles.
    let mut w2 = playing_world();
    w2.balls.push(Ball {
        pos: Vec2 { x: 0, y: -100_000 },
        vel: Vec2 { x: 0, y: 400_000 },
    });
    w2.balls.push(Ball {
        pos: Vec2 { x: 10_000, y: -100_000 },
        vel: Vec2 { x: 0, y: 400_000 },
    });
    w2.powerups.push(PowerUp {
        pos: Vec2 { x: 0, y: -245_000 },
        vel: Vec2 { x: 0, y: -150_000 },
        power_type: PowerUpType::MultiBall,
    });
    w2.powerup_collision();
    assert_eq!(w2.balls.len(), 2);
    assert_eq!(w2.powerups.len(), 0);
}

#[test]
fn timed_powerups_arm_their_flags() {
    let mut w = playing_world();
    w.powerups.push(PowerUp {
        pos: Vec2 { x: 0, y: -245_000 },
        vel: Vec2 { x: 0, y: -150_000 },
        power_type: PowerUpType::PenetratingBall,
    });
    w.powerup_collision();
    assert!(w.effects.penetrating_ball);
    assert_eq!(w.effects.penetrating_timer_ms, 10_000);

    w.powerups.push(PowerUp {
        pos: Vec2 { x: 0, y: -245_000 },
        vel: Vec2 { x: 0, y: -150_000 },
        power_type: PowerUpType::LaserGun,
    });
    w.powerup_collision();
    assert!(w.effects.has_laser);
    assert_eq!(w.effects.laser_timer_ms, 15_000);
}

#[test]
fn missed_powerup_is_kept_falling() {
    let mut w = playing_world();
    w.powerups.push(PowerUp {
        pos: Vec2 { x: 300_000, y: 100_000 },
        vel: Vec2 { x: 0, y: -150_000 },
        power_type: PowerUpType::LaserGun,
    });
    w.powerup_collision();
    assert_eq!(w.powerups.len(), 1);
    assert!(!w.effects.has_laser);
}
