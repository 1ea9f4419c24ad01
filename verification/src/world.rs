use vstd::prelude::*;
use crate::difficulty::{Difficulty, DifficultySettings};
use crate::effects::PowerUpEffects;
use crate::entities::{Ball, Brick, BrickType, Laser, Paddle, Particle, PowerUp};
use crate::flow::{GameState, NameInput};
use crate::geom::{Vec2, step_vec, stepped};
use crate::rng::random_in_range;
use crate::units::{scale_rate, BALL_SPAWN_Y, BALL_SPEED, BRICK_COLUMNS, BRICK_HEIGHT,
    BRICK_ROWS, BRICK_WIDTH, DIAG, DT_CAP_MS, GAP_SIZE, LASER_SPEED, PADDLE_SPEED, PADDLE_WIDTH,
    PADDLE_Y, PADDLE_HEIGHT, WINDOW_WIDTH, WINDOW_HEIGHT};

verus! {

/// The live simulation: the entity store, the run ledger, the power-up
/// tracker and the game-flow state, mutated tick by tick.
pub struct World {
    pub state: GameState,
    pub settings: DifficultySettings,
    pub score: u32,
    pub level: u32,
    pub lives: u32,
    pub level_timer_ms: i64,
    pub effects: PowerUpEffects,
    pub game_initialized: bool,
    pub paddle: Option<Paddle>,
    pub balls: Vec<Ball>,
    pub bricks: Vec<Brick>,
    pub powerups: Vec<PowerUp>,
    pub lasers: Vec<Laser>,
    pub particles: Vec<Particle>,
    pub player_name: Vec<char>,
    pub name_input: NameInput,
}

/// There is a brick that damage can still remove.
pub open spec fn has_breakable(s: Seq<Brick>) -> bool {
    exists|i: int| 0 <= i < s.len() && (#[trigger] s[i]).breakable()
}

impl World {
    /// Every entity and resource is well formed.
    pub open spec fn wf(self) -> bool {
        &&& self.settings.wf()
        &&& self.effects.wf()
        &&& self.name_input.wf()
        &&& match self.paddle {
            Some(p) => p.wf(),
            None => true,
        }
        &&& forall|i: int| 0 <= i < self.balls@.len() ==> (#[trigger] self.balls@[i]).wf()
        &&& forall|i: int| 0 <= i < self.bricks@.len() ==> (#[trigger] self.bricks@[i]).wf()
        &&& forall|i: int| 0 <= i < self.powerups@.len() ==> (#[trigger] self.powerups@[i]).wf()
        &&& forall|i: int| 0 <= i < self.lasers@.len() ==> (#[trigger] self.lasers@[i]).wf()
        &&& forall|i: int|
            0 <= i < self.particles@.len() ==> (#[trigger] self.particles@[i]).wf()
        &&& 0 <= self.level_timer_ms <= 1_000_000_000
        &&& self.level >= 1
    }

    /// The resources of a fresh program: medium difficulty, one run ledger
    /// at its initial values, no entities, the main menu showing.
    pub fn new() -> (r: World)
        ensures
            r.wf(),
            r.state is MainMenu,
            r.settings == DifficultySettings::spec_new(Difficulty::Medium),
            r.score == 0,
            r.level == 1,
            r.lives == 3,
            r.level_timer_ms == 0,
            r.effects == PowerUpEffects::spec_default(),
            !r.game_initialized,
            r.paddle is None,
            r.balls@.len() == 0,
            r.bricks@.len() == 0,
            r.powerups@.len() == 0,
            r.lasers@.len() == 0,
            r.particles@.len() == 0,
            r.player_name@ =~= seq!['P', 'l', 'a', 'y', 'e', 'r'],
    {
        let mut name: Vec<char> = Vec::new();
        name.push('P');
        name.push('l');
        name.push('a');
        name.push('y');
        name.push('e');
        name.push('r');
        World {
            state: GameState::MainMenu,
            settings: DifficultySettings::new(Difficulty::Medium),
            score: 0,
            level: 1,
            lives: 3,
            level_timer_ms: 0,
            effects: PowerUpEffects::default(),
            game_initialized: false,
            paddle: None,
            balls: Vec::new(),
            bricks: Vec::new(),
            powerups: Vec::new(),
            lasers: Vec::new(),
            particles: Vec::new(),
            player_name: name,
            name_input: NameInput::default(),
        }
    }

    /// Tear down every gameplay entity and drop the initialized guard.
    /// The ledger, the effects and the flow state are untouched.
    pub fn cleanup_game(&mut self)
        ensures
            final(self).paddle is None,
            final(self).balls@.len() == 0,
            final(self).bricks@.len() == 0,
            final(self).powerups@.len() == 0,
            final(self).lasers@.len() == 0,
            final(self).particles@.len() == 0,
            !final(self).game_initialized,
            final(self).state == old(self).state,
            final(self).settings == old(self).settings,
            final(self).score == old(self).score,
            final(self).level == old(self).level,
            final(self).lives == old(self).lives,
            final(self).level_timer_ms == old(self).level_timer_ms,
            final(self).effects == old(self).effects,
            final(self).player_name == old(self).player_name,
            final(self).name_input == old(self).name_input,
            old(self).wf() ==> final(self).wf(),
    {
        self.paddle = None;
        self.balls.clear();
        self.bricks.clear();
        self.powerups.clear();
        self.lasers.clear();
        self.particles.clear();
        self.game_initialized = false;
    }

    /// Victory triggers exactly when no breakable brick remains, whatever
    /// the number of Unbreakable bricks.
    pub fn check_victory(&mut self)
        ensures
            check_victory_rel(*old(self), *final(self)),
    {
        let mut i: usize = 0;
        let mut found: bool = false;
        while i < self.bricks.len()
            invariant
                0 <= i <= self.bricks@.len(),
                *self == *old(self),
                found <==> exists|j: int|
                    0 <= j < i && (#[trigger] self.bricks@[j]).breakable(),
            decreases self.bricks@.len() - i,
        {
            if !matches!(self.bricks[i].brick_type, crate::entities::BrickType::Unbreakable) {
                found = true;
            }
            i += 1;
        }
        if !found {
            self.state = GameState::Victory;
        }
    }

    /// Count down the per-level timer under a time-limited difficulty;
    /// reaching zero forces a loss whatever the lives remaining.
    pub fn update_level_timer(&mut self, dt_ms: i64)
        requires
            old(self).wf(),
            0 <= dt_ms <= DT_CAP_MS,
        ensures
            final(self).wf(),
            update_level_timer_rel(*old(self), *final(self), dt_ms as int),
    {
        if self.settings.time_limit_ms.is_some() {
            if self.level_timer_ms > 0 {
                self.level_timer_ms = self.level_timer_ms - dt_ms;
                if self.level_timer_ms <= 0 {
                    self.level_timer_ms = 0;
                    self.state = GameState::GameOver;
                }
            }
        }
    }

    /// Lay out the brick grid for a level: six rows of ten bricks, each
    /// brick's kind drawn from the level's mix.
    pub fn spawn_bricks(&mut self, level: u32)
        requires
            old(self).wf(),
        ensures
            final(self).wf(),
            final(self).bricks@.len() == old(self).bricks@.len() + 60,
            forall|k: int|
                0 <= k < old(self).bricks@.len() ==> final(self).bricks@[k] == old(
                    self,
                ).bricks@[k],
            forall|k: int|
                old(self).bricks@.len() <= k < final(self).bricks@.len() ==> ((
                #[trigger] final(self).bricks@[k]).pos == brick_grid_pos(
                    (k - old(self).bricks@.len()) / 10,
                    (k - old(self).bricks@.len()) % 10,
                ) && valid_level_brick(final(self).bricks@[k], level as int)),
            *final(self) == (World { bricks: final(self).bricks, ..*old(self) }),
    {
        let ghost base = self.bricks@.len();
        let mut k: usize = 0;
        while k < BRICK_ROWS * BRICK_COLUMNS
            invariant
                0 <= k <= 60,
                base == old(self).bricks@.len(),
                self.bricks@.len() == base + k,
                forall|t: int| 0 <= t < base ==> self.bricks@[t] == old(self).bricks@[t],
                forall|t: int|
                    base <= t < self.bricks@.len() ==> ((#[trigger] self.bricks@[t]).pos
                        == brick_grid_pos((t - base) / 10, (t - base) % 10) && valid_level_brick(
                        self.bricks@[t],
                        level as int,
                    ) && self.bricks@[t].wf()),
                *self == (World { bricks: self.bricks, ..*old(self) }),
            decreases 60 - k,
        {
            let row = k / BRICK_COLUMNS;
            let col = k % BRICK_COLUMNS;
            let roll = random_in_range(0, 100);
            let kind = brick_kind_for(level, roll);
            let x: i64 = -360_000 + (col as i64) * (BRICK_WIDTH + GAP_SIZE);
            let y: i64 = 200_000 - (row as i64) * (BRICK_HEIGHT + GAP_SIZE);
            let b = Brick { pos: Vec2 { x, y }, brick_type: kind.0, health: kind.1 };
            self.bricks.push(b);
            k += 1;
        }
    }

    /// Enter a level: reset the ledger fields that the level entry resets,
    /// then create the paddle, the single ball and the brick grid.
    pub fn setup_game(&mut self)
        requires
            old(self).wf(),
        ensures
            final(self).wf(),
            setup_game_rel(*old(self), *final(self)),
    {
        if self.level == 1 {
            self.score = 0;
            self.lives = self.settings.lives;
        } else if self.settings.reset_lives_on_level {
            self.lives = self.settings.lives;
        }
        if let Some(t) = self.settings.time_limit_ms {
            self.level_timer_ms = t;
        }
        self.paddle = Some(Paddle { pos: Vec2 { x: 0, y: PADDLE_Y } });

        let c0 = crate::units::apply_rate(BALL_SPEED, DIAG);
        let c = crate::units::apply_rate(c0, self.settings.ball_speed_modifier);
        let flip = random_in_range(0, 2);
        let vx = if flip == 0 {
            c
        } else {
            -c
        };
        self.balls.push(
            Ball { pos: Vec2 { x: 0, y: BALL_SPAWN_Y }, vel: Vec2 { x: vx, y: c } },
        );

        let level = self.level;
        self.spawn_bricks(level);
    }

    /// Entering the Playing state initializes the play-field exactly once
    /// per level: nothing happens while the initialized guard is set, so
    /// pausing and resuming never rebuilds the field.
    pub fn setup_game_conditional(&mut self)
        requires
            old(self).wf(),
        ensures
            final(self).wf(),
            old(self).game_initialized ==> *final(self) == *old(self),
            !old(self).game_initialized ==> (setup_game_rel(
                World { game_initialized: true, ..*old(self) },
                *final(self),
            ) && final(self).game_initialized),
    {
        if !self.game_initialized {
            self.game_initialized = true;
            self.setup_game();
        }
    }

    /// One frame of play: the input intents and the frame delta drive
    /// every per-tick system once, in a fixed order, and an ended game
    /// tears its entities down. The returned ghost trace holds the
    /// thirteen intermediate states, so the final state is pinned to the
    /// sequential composition of the per-system relations. Score never
    /// decreases across a tick, and a tick leaves the game playing,
    /// paused, lost or won.
    pub fn tick(&mut self, left: bool, right: bool, fire: bool, pause: bool, dt_ms: i64) -> (trace:
        Ghost<Seq<World>>)
        requires
            old(self).wf(),
            old(self).state is Playing,
            0 <= dt_ms <= DT_CAP_MS,
        ensures
            final(self).wf(),
            trace@.len() == 13,
            paddle_movement_rel(*old(self), trace@[0], left, right, dt_ms as int),
            ball_movement_rel(trace@[0], trace@[1], dt_ms as int),
            crate::collision::ball_collision_rel(trace@[1], trace@[2]),
            powerup_movement_rel(trace@[2], trace@[3], dt_ms as int),
            crate::collision::powerup_collision_rel(trace@[3], trace@[4]),
            particle_system_rel(trace@[4], trace@[5], dt_ms as int),
            update_powerup_timers_rel(trace@[5], trace@[6], dt_ms as int),
            update_level_timer_rel(trace@[6], trace@[7], dt_ms as int),
            check_victory_rel(trace@[7], trace@[8]),
            pause_game_input_rel(trace@[8], trace@[9], pause),
            laser_shooting_rel(trace@[9], trace@[10], fire),
            laser_movement_rel(trace@[10], trace@[11], dt_ms as int),
            crate::collision::laser_collision_rel(trace@[11], trace@[12]),
            trace@[12].state is GameOver ==> cleanup_game_rel(trace@[12], *final(self)),
            !(trace@[12].state is GameOver) ==> *final(self) == trace@[12],
            final(self).score >= old(self).score,
            final(self).lives <= old(self).lives,
            final(self).level_timer_ms <= old(self).level_timer_ms,
            final(self).state is Playing || final(self).state is Paused || final(self).state is GameOver || final(self).state is Victory,
            final(self).settings == old(self).settings,
            final(self).level == old(self).level,
            final(self).player_name == old(self).player_name,
            final(self).state is GameOver ==> final(self).balls@.len() == 0 && final(self).bricks@.len() == 0 && final(self).paddle is None,
    {
        self.paddle_movement(left, right, dt_ms);
        let ghost s1 = *self;
        self.ball_movement(dt_ms);
        let ghost s2 = *self;
        self.ball_collision();
        let ghost s3 = *self;
        self.powerup_movement(dt_ms);
        let ghost s4 = *self;
        self.powerup_collision();
        let ghost s5 = *self;
        self.particle_system(dt_ms);
        let ghost s6 = *self;
        self.update_powerup_timers(dt_ms);
        let ghost s7 = *self;
        self.update_level_timer(dt_ms);
        let ghost s8 = *self;
        self.check_victory();
        let ghost s9 = *self;
        self.pause_game_input(pause);
        let ghost s10 = *self;
        self.laser_shooting(fire);
        let ghost s11 = *self;
        self.laser_movement(dt_ms);
        let ghost s12 = *self;
        self.laser_collision();
        let ghost s13 = *self;
        if matches!(self.state, GameState::GameOver) {
            self.cleanup_game();
        }
        let ghost tr: Seq<World> = seq![s1, s2, s3, s4, s5, s6, s7, s8, s9, s10, s11, s12, s13];
        Ghost(tr)
    }

    /// Decay the timed effects; a timer reaching zero clears its flag.
    pub fn update_powerup_timers(&mut self, dt_ms: i64)
        requires
            old(self).wf(),
            0 <= dt_ms <= DT_CAP_MS,
        ensures
            final(self).wf(),
            update_powerup_timers_rel(*old(self), *final(self), dt_ms as int),
    {
        if self.effects.penetrating_ball {
            self.effects.penetrating_timer_ms = self.effects.penetrating_timer_ms - dt_ms;
            if self.effects.penetrating_timer_ms <= 0 {
                self.effects.penetrating_ball = false;
            }
        }
        if self.effects.has_laser {
            self.effects.laser_timer_ms = self.effects.laser_timer_ms - dt_ms;
            if self.effects.laser_timer_ms <= 0 {
                self.effects.has_laser = false;
            }
        }
    }
}

impl World {
    /// Move the paddle by the held direction, scaled by the difficulty
    /// paddle-speed modifier, and keep it fully inside the field at its
    /// current (possibly power-up-scaled) width.
    pub fn paddle_movement(&mut self, left: bool, right: bool, dt_ms: i64)
        requires
            old(self).wf(),
            0 <= dt_ms <= DT_CAP_MS,
        ensures
            final(self).wf(),
            paddle_movement_rel(*old(self), *final(self), left, right, dt_ms as int),
    {
        let p = match self.paddle {
            Some(p) => p,
            None => {
                return ;
            },
        };
        let width = crate::units::apply_rate(PADDLE_WIDTH, self.effects.paddle_size_modifier);
        let half = width / 2;
        let boundary = WINDOW_WIDTH / 2 - half;
        let step = crate::units::apply_rate(PADDLE_SPEED, self.settings.paddle_speed_modifier);
        proof {
            assert((-1_000_000 * 1_000_000) <= step * dt_ms <= 1_000_000 * 1_000_000)
                by (nonlinear_arith)
                requires
                    -1_000_000 <= step <= 1_000_000,
                    0 <= dt_ms <= 1_000_000,
            ;
            crate::units::lemma_div_tz_bounds(step as int * dt_ms as int, 1000);
        }
        let dx = (step * dt_ms) / 1000;
        let moved = p.pos.x + if right && !left {
            dx
        } else if left && !right {
            -dx
        } else {
            0
        };
        let clamped = if moved < -boundary {
            -boundary
        } else if moved > boundary {
            boundary
        } else {
            moved
        };
        proof {
            let dir = (if right { 1int } else { 0int }) - (if left { 1int } else { 0int });
            let dd = crate::units::div_tz(
                scale_rate(PADDLE_SPEED as int, old(self).settings.paddle_speed_modifier as int)
                    * dt_ms,
                1000,
            );
            if right && !left {
                assert(dir * dd == dd) by (nonlinear_arith)
                    requires
                        dir == 1,
                ;
            } else if left && !right {
                assert(dir * dd == -dd) by (nonlinear_arith)
                    requires
                        dir == -1,
                ;
            } else {
                assert(dir * dd == 0) by (nonlinear_arith)
                    requires
                        dir == 0,
                ;
            }
        }
        self.paddle = Some(Paddle { pos: Vec2 { x: clamped, y: PADDLE_Y } });
    }

    /// Move every ball by its velocity scaled by the power-up and the
    /// difficulty ball-speed modifiers.
    pub fn ball_movement(&mut self, dt_ms: i64)
        requires
            old(self).wf(),
            0 <= dt_ms <= DT_CAP_MS,
        ensures
            final(self).wf(),
            ball_movement_rel(*old(self), *final(self), dt_ms as int),
    {
        let m1 = self.effects.ball_speed_modifier;
        let m2 = self.settings.ball_speed_modifier;
        let mut i: usize = 0;
        while i < self.balls.len()
            invariant
                0 <= i <= self.balls@.len(),
                self.balls@.len() == old(self).balls@.len(),
                m1 == old(self).effects.ball_speed_modifier,
                m2 == old(self).settings.ball_speed_modifier,
                500 <= m1 <= 2000,
                500 <= m2 <= 2000,
                0 <= dt_ms <= DT_CAP_MS,
                old(self).wf(),
                forall|j: int| i <= j < self.balls@.len() ==> self.balls@[j] == old(self).balls@[j],
                forall|j: int|
                    0 <= j < i ==> self.balls@[j] == (Ball {
                        pos: stepped(
                            old(self).balls@[j].pos,
                            effective_vel(old(self).balls@[j].vel, m1 as int, m2 as int),
                            dt_ms as int,
                        ),
                        vel: old(self).balls@[j].vel,
                    }),
                forall|j: int| 0 <= j < i ==> (#[trigger] self.balls@[j]).wf(),
                *self == (World { balls: self.balls, ..*old(self) }),
            decreases self.balls@.len() - i,
        {
            let b = self.balls[i];
            let ev = Vec2 {
                x: crate::units::compose_rates(b.vel.x, m1, m2),
                y: crate::units::compose_rates(b.vel.y, m1, m2),
            };
            let np = step_vec(b.pos, ev, dt_ms);
            self.balls.set(i, Ball { pos: np, vel: b.vel });
            i += 1;
        }
    }

    /// When the laser effect is active and fire is pressed, spawn a pair
    /// of lasers from the paddle's edges.
    pub fn laser_shooting(&mut self, fire: bool)
        requires
            old(self).wf(),
        ensures
            final(self).wf(),
            laser_shooting_rel(*old(self), *final(self), fire),
    {
        if self.effects.has_laser && fire {
            let p = match self.paddle {
                Some(p) => p,
                None => {
                    return ;
                },
            };
            let width = crate::units::apply_rate(
                PADDLE_WIDTH,
                self.effects.paddle_size_modifier,
            );
            let off = width / 3;
            self.lasers.push(
                Laser {
                    pos: Vec2 { x: p.pos.x - off, y: PADDLE_Y + PADDLE_HEIGHT },
                    vel: Vec2 { x: 0, y: LASER_SPEED },
                },
            );
            self.lasers.push(
                Laser {
                    pos: Vec2 { x: p.pos.x + off, y: PADDLE_Y + PADDLE_HEIGHT },
                    vel: Vec2 { x: 0, y: LASER_SPEED },
                },
            );
            proof {
                let px = old(self).paddle->Some_0.pos.x as int;
                let offs = scale_rate(
                    PADDLE_WIDTH as int,
                    old(self).effects.paddle_size_modifier as int,
                ) / 3;
                assert(off as int == offs);
                assert(self.lasers@ =~= old(self).lasers@ + seq![
                    Laser {
                        pos: Vec2 { x: (px - offs) as i64, y: (PADDLE_Y + PADDLE_HEIGHT) as i64 },
                        vel: Vec2 { x: 0, y: LASER_SPEED },
                    },
                    Laser {
                        pos: Vec2 { x: (px + offs) as i64, y: (PADDLE_Y + PADDLE_HEIGHT) as i64 },
                        vel: Vec2 { x: 0, y: LASER_SPEED },
                    },
                ]);
            }
        }
    }
}

impl World {
    /// Move every laser up by its velocity; one that leaves the top of
    /// the field despawns.
    pub fn laser_movement(&mut self, dt_ms: i64)
        requires
            old(self).wf(),
            0 <= dt_ms <= DT_CAP_MS,
        ensures
            final(self).wf(),
            laser_movement_rel(*old(self), *final(self), dt_ms as int),
    {
        let ghost orig = self.lasers@;
        let mut kept: Vec<Laser> = Vec::new();
        let mut i: usize = 0;
        proof {
            assert(orig.skip(0) =~= orig);
        }
        while i < self.lasers.len()
            invariant
                0 <= i <= self.lasers@.len(),
                self.lasers@ == orig,
                *self == *old(self),
                old(self).wf(),
                0 <= dt_ms <= DT_CAP_MS,
                forall|k: int| 0 <= k < kept@.len() ==> (#[trigger] kept@[k]).wf(),
                lasers_after_move(orig, dt_ms as int) == kept@ + lasers_after_move(
                    orig.skip(i as int),
                    dt_ms as int,
                ),
            decreases self.lasers@.len() - i,
        {
            let l = self.lasers[i];
            let m = Laser { pos: step_vec(l.pos, l.vel, dt_ms), vel: l.vel };
            proof {
                assert(orig.skip(i as int)[0] == orig[i as int]);
                assert(orig.skip(i as int).drop_first() =~= orig.skip(i as int + 1));
            }
            let ghost kept0 = kept@;
            let ghost rest = lasers_after_move(orig.skip(i as int + 1), dt_ms as int);
            if m.pos.y > WINDOW_HEIGHT / 2 + 50_000 {
            } else {
                kept.push(m);
                proof {
                    assert(kept@ =~= kept0 + seq![m]);
                    assert(kept0 + (seq![m] + rest) =~= (kept0 + seq![m]) + rest);
                }
            }
            i += 1;
        }
        proof {
            assert(orig.skip(orig.len() as int) =~= Seq::<Laser>::empty());
            assert(kept@ + Seq::<Laser>::empty() =~= kept@);
        }
        self.lasers = kept;
    }

    /// Move every power-up down by its velocity; one that leaves the
    /// bottom of the field despawns.
    pub fn powerup_movement(&mut self, dt_ms: i64)
        requires
            old(self).wf(),
            0 <= dt_ms <= DT_CAP_MS,
        ensures
            final(self).wf(),
            powerup_movement_rel(*old(self), *final(self), dt_ms as int),
    {
        let ghost orig = self.powerups@;
        let mut kept: Vec<PowerUp> = Vec::new();
        let mut i: usize = 0;
        proof {
            assert(orig.skip(0) =~= orig);
        }
        while i < self.powerups.len()
            invariant
                0 <= i <= self.powerups@.len(),
                self.powerups@ == orig,
                *self == *old(self),
                old(self).wf(),
                0 <= dt_ms <= DT_CAP_MS,
                forall|k: int| 0 <= k < kept@.len() ==> (#[trigger] kept@[k]).wf(),
                powerups_after_move(orig, dt_ms as int) == kept@ + powerups_after_move(
                    orig.skip(i as int),
                    dt_ms as int,
                ),
            decreases self.powerups@.len() - i,
        {
            let u = self.powerups[i];
            let m = PowerUp {
                pos: step_vec(u.pos, u.vel, dt_ms),
                vel: u.vel,
                power_type: u.power_type,
            };
            proof {
                assert(orig.skip(i as int)[0] == orig[i as int]);
                assert(orig.skip(i as int).drop_first() =~= orig.skip(i as int + 1));
            }
            let ghost kept0 = kept@;
            let ghost rest = powerups_after_move(orig.skip(i as int + 1), dt_ms as int);
            if m.pos.y < -WINDOW_HEIGHT / 2 - 50_000 {
            } else {
                kept.push(m);
                proof {
                    assert(kept@ =~= kept0 + seq![m]);
                    assert(kept0 + (seq![m] + rest) =~= (kept0 + seq![m]) + rest);
                }
            }
            i += 1;
        }
        proof {
            assert(orig.skip(orig.len() as int) =~= Seq::<PowerUp>::empty());
            assert(kept@ + Seq::<PowerUp>::empty() =~= kept@);
        }
        self.powerups = kept;
    }

    /// Age every particle by `dt`; one whose lifetime runs out despawns,
    /// the others drift by their velocity.
    pub fn particle_system(&mut self, dt_ms: i64)
        requires
            old(self).wf(),
            0 <= dt_ms <= DT_CAP_MS,
        ensures
            final(self).wf(),
            particle_system_rel(*old(self), *final(self), dt_ms as int),
    {
        let ghost orig = self.particles@;
        let mut kept: Vec<Particle> = Vec::new();
        let mut i: usize = 0;
        proof {
            assert(orig.skip(0) =~= orig);
        }
        while i < self.particles.len()
            invariant
                0 <= i <= self.particles@.len(),
                self.particles@ == orig,
                *self == *old(self),
                old(self).wf(),
                0 <= dt_ms <= DT_CAP_MS,
                forall|k: int| 0 <= k < kept@.len() ==> (#[trigger] kept@[k]).wf(),
                particles_after_tick(orig, dt_ms as int) == kept@ + particles_after_tick(
                    orig.skip(i as int),
                    dt_ms as int,
                ),
            decreases self.particles@.len() - i,
        {
            let q = self.particles[i];
            let lt = q.lifetime_ms - dt_ms;
            proof {
                assert(orig.skip(i as int)[0] == orig[i as int]);
                assert(orig.skip(i as int).drop_first() =~= orig.skip(i as int + 1));
            }
            let ghost kept0 = kept@;
            let ghost rest = particles_after_tick(orig.skip(i as int + 1), dt_ms as int);
            if lt <= 0 {
            } else {
                let m = Particle { pos: step_vec(q.pos, q.vel, dt_ms), vel: q.vel, lifetime_ms: lt };
                kept.push(m);
                proof {
                    assert(kept@ =~= kept0 + seq![m]);
                    assert(kept0 + (seq![m] + rest) =~= (kept0 + seq![m]) + rest);
                }
            }
            i += 1;
        }
        proof {
            assert(orig.skip(orig.len() as int) =~= Seq::<Particle>::empty());
            assert(kept@ + Seq::<Particle>::empty() =~= kept@);
        }
        self.particles = kept;
    }
}

/// The grid position of the brick in the given row and column: columns
/// advance by the brick width plus the gap, rows descend from the top
/// band by the brick height plus the gap.
pub open spec fn brick_grid_pos(row: int, col: int) -> Vec2 {
    Vec2 { x: (-360_000 + col * 80_000) as i64, y: (200_000 - row * 35_000) as i64 }
}

/// The brick mix a level may produce: level 1 has Normal and Hard
/// (health 2) bricks; level 2 adds Unbreakable ones; later levels harden
/// the Hard bricks to health 3.
pub open spec fn valid_level_brick(b: Brick, level: int) -> bool {
    if level == 1 {
        ||| b.brick_type is Hard && b.health == 2
        ||| b.brick_type is Normal && b.health == 1
    } else if level == 2 {
        ||| b.brick_type is Unbreakable && b.health == -1
        ||| b.brick_type is Hard && b.health == 2
        ||| b.brick_type is Normal && b.health == 1
    } else {
        ||| b.brick_type is Unbreakable && b.health == -1
        ||| b.brick_type is Hard && b.health == 3
        ||| b.brick_type is Normal && b.health == 1
    }
}

/// The brick kind and health that a given level assigns to a percentile
/// roll.
pub open spec fn spec_brick_kind(level: int, roll: int) -> (BrickType, i32) {
    if level == 1 {
        if roll < 10 {
            (BrickType::Hard, 2)
        } else {
            (BrickType::Normal, 1)
        }
    } else if level == 2 {
        if roll < 5 {
            (BrickType::Unbreakable, -1i32)
        } else if roll < 30 {
            (BrickType::Hard, 2)
        } else {
            (BrickType::Normal, 1)
        }
    } else {
        if roll < 10 {
            (BrickType::Unbreakable, -1i32)
        } else if roll < 50 {
            (BrickType::Hard, 3)
        } else {
            (BrickType::Normal, 1)
        }
    }
}

/// Exec mirror of `spec_brick_kind`.
pub fn brick_kind_for(level: u32, roll: i64) -> (r: (BrickType, i32))
    requires
        0 <= roll < 100,
    ensures
        r == spec_brick_kind(level as int, roll as int),
{
    if level == 1 {
        if roll < 10 {
            (BrickType::Hard, 2)
        } else {
            (BrickType::Normal, 1)
        }
    } else if level == 2 {
        if roll < 5 {
            (BrickType::Unbreakable, -1i32)
        } else if roll < 30 {
            (BrickType::Hard, 2)
        } else {
            (BrickType::Normal, 1)
        }
    } else {
        if roll < 10 {
            (BrickType::Unbreakable, -1i32)
        } else if roll < 50 {
            (BrickType::Hard, 3)
        } else {
            (BrickType::Normal, 1)
        }
    }
}

/// How one run of the play-field setup relates the state before it to the
/// state after it: the ledger resets that entering a level performs, and
/// the paddle, single ball and brick grid it creates. The spawned ball
/// leaves diagonally at the difficulty-scaled base speed, its horizontal
/// sign drawn at random; each spawned brick is a kind its level allows,
/// placed on the grid.
pub open spec fn setup_game_rel(pre: World, post: World) -> bool {
    &&& post.score == if pre.level == 1 {
        0int
    } else {
        pre.score as int
    }
    &&& post.lives == if pre.level == 1 || pre.settings.reset_lives_on_level {
        pre.settings.lives
    } else {
        pre.lives
    }
    &&& post.level_timer_ms == (match pre.settings.time_limit_ms {
        Some(t) => t as int,
        None => pre.level_timer_ms as int,
    })
    &&& post.paddle == (Some(Paddle { pos: Vec2 { x: 0, y: PADDLE_Y } }))
    &&& post.balls@.len() == pre.balls@.len() + 1
    &&& forall|k: int| 0 <= k < pre.balls@.len() ==> post.balls@[k] == pre.balls@[k]
    &&& ({
        let nb = post.balls@.last();
        let c = scale_rate(
            scale_rate(BALL_SPEED as int, DIAG as int),
            pre.settings.ball_speed_modifier as int,
        );
        &&& nb.pos == (Vec2 { x: 0, y: BALL_SPAWN_Y })
        &&& nb.vel.y == c
        &&& (nb.vel.x == c || nb.vel.x == -c)
    })
    &&& post.bricks@.len() == pre.bricks@.len() + 60
    &&& forall|k: int| 0 <= k < pre.bricks@.len() ==> post.bricks@[k] == pre.bricks@[k]
    &&& forall|k: int|
        pre.bricks@.len() <= k < post.bricks@.len() ==> ((#[trigger] post.bricks@[k]).pos
            == brick_grid_pos((k - pre.bricks@.len()) / 10, (k - pre.bricks@.len()) % 10)
            && valid_level_brick(post.bricks@[k], pre.level as int))
    &&& post == (World {
        score: post.score,
        lives: post.lives,
        level_timer_ms: post.level_timer_ms,
        paddle: post.paddle,
        balls: post.balls,
        bricks: post.bricks,
        ..pre
    })
}

/// A freshly built play-field: the paddle centered, a single ball about
/// to leave the drop point diagonally at the difficulty-scaled base
/// speed, a full six-by-ten brick grid of the level's mix, and no other
/// gameplay entity.
pub open spec fn fresh_field(w: World) -> bool {
    &&& w.paddle == (Some(Paddle { pos: Vec2 { x: 0, y: PADDLE_Y } }))
    &&& w.balls@.len() == 1
    &&& ({
        let nb = w.balls@[0];
        let c = scale_rate(
            scale_rate(BALL_SPEED as int, DIAG as int),
            w.settings.ball_speed_modifier as int,
        );
        &&& nb.pos == (Vec2 { x: 0, y: BALL_SPAWN_Y })
        &&& nb.vel.y == c
        &&& (nb.vel.x == c || nb.vel.x == -c)
    })
    &&& w.bricks@.len() == 60
    &&& forall|k: int|
        0 <= k < 60 ==> ((#[trigger] w.bricks@[k]).pos == brick_grid_pos(k / 10, k % 10)
            && valid_level_brick(w.bricks@[k], w.level as int))
    &&& w.powerups@.len() == 0
    &&& w.lasers@.len() == 0
    &&& w.particles@.len() == 0
    &&& w.game_initialized
}

/// What one paddle-movement step guarantees: with no paddle a no-op,
/// else the paddle moves to the clamped displaced position and nothing
/// else changes.
pub open spec fn paddle_movement_rel(pre: World, post: World, left: bool, right: bool, dt: int) -> bool {
    &&& (pre.paddle is None ==> post == pre)
    &&& (pre.paddle is Some ==> post.paddle == (Some(
        Paddle {
            pos: Vec2 {
                x: paddle_x_after(
                    pre.paddle->Some_0.pos.x as int,
                    (if right { 1int } else { 0int }) - (if left { 1int } else { 0int }),
                    pre.effects.paddle_size_modifier as int,
                    pre.settings.paddle_speed_modifier as int,
                    dt,
                ) as i64,
                y: PADDLE_Y,
            },
        },
    )))
    &&& post == (World { paddle: post.paddle, ..pre })
}

/// What one ball-movement step guarantees: every ball steps by its
/// modifier-scaled velocity and nothing else changes.
pub open spec fn ball_movement_rel(pre: World, post: World, dt: int) -> bool {
    &&& post.balls@.len() == pre.balls@.len()
    &&& (forall|i: int|
        0 <= i < pre.balls@.len() ==> post.balls@[i] == (Ball {
            pos: stepped(
                pre.balls@[i].pos,
                effective_vel(
                    pre.balls@[i].vel,
                    pre.effects.ball_speed_modifier as int,
                    pre.settings.ball_speed_modifier as int,
                ),
                dt,
            ),
            vel: pre.balls@[i].vel,
        }))
    &&& post == (World { balls: post.balls, ..pre })
}

/// What one laser-movement step guarantees.
pub open spec fn laser_movement_rel(pre: World, post: World, dt: int) -> bool {
    &&& post.lasers@ == lasers_after_move(pre.lasers@, dt)
    &&& post == (World { lasers: post.lasers, ..pre })
}

/// What one power-up-movement step guarantees.
pub open spec fn powerup_movement_rel(pre: World, post: World, dt: int) -> bool {
    &&& post.powerups@ == powerups_after_move(pre.powerups@, dt)
    &&& post == (World { powerups: post.powerups, ..pre })
}

/// What one particle aging step guarantees.
pub open spec fn particle_system_rel(pre: World, post: World, dt: int) -> bool {
    &&& post.particles@ == particles_after_tick(pre.particles@, dt)
    &&& post == (World { particles: post.particles, ..pre })
}

/// What one effect-timer decay step guarantees.
pub open spec fn update_powerup_timers_rel(pre: World, post: World, dt: int) -> bool {
    &&& (post.effects.penetrating_ball <==> (pre.effects.penetrating_ball
        && pre.effects.penetrating_timer_ms - dt > 0))
    &&& (post.effects.has_laser <==> (pre.effects.has_laser && pre.effects.laser_timer_ms - dt
        > 0))
    &&& post.effects.penetrating_timer_ms == (if pre.effects.penetrating_ball {
        pre.effects.penetrating_timer_ms - dt
    } else {
        pre.effects.penetrating_timer_ms as int
    })
    &&& post.effects.laser_timer_ms == (if pre.effects.has_laser {
        pre.effects.laser_timer_ms - dt
    } else {
        pre.effects.laser_timer_ms as int
    })
    &&& post.effects.paddle_size_modifier == pre.effects.paddle_size_modifier
    &&& post.effects.ball_speed_modifier == pre.effects.ball_speed_modifier
    &&& post == (World { effects: post.effects, ..pre })
}

/// What one level-timer step guarantees: the countdown runs only under
/// a difficulty with a time limit, and its expiry forces a loss.
pub open spec fn update_level_timer_rel(pre: World, post: World, dt: int) -> bool {
    let counting = pre.settings.time_limit_ms is Some && pre.level_timer_ms > 0;
    let expired = counting && pre.level_timer_ms - dt <= 0;
    &&& post.state == (if expired {
        GameState::GameOver
    } else {
        pre.state
    })
    &&& post.level_timer_ms == (if counting {
        if pre.level_timer_ms - dt <= 0 {
            0int
        } else {
            pre.level_timer_ms - dt
        }
    } else {
        pre.level_timer_ms as int
    })
    &&& post == (World { state: post.state, level_timer_ms: post.level_timer_ms, ..pre })
}

/// What the victory check guarantees.
pub open spec fn check_victory_rel(pre: World, post: World) -> bool {
    &&& post.state == (if has_breakable(pre.bricks@) {
        pre.state
    } else {
        GameState::Victory
    })
    &&& post == (World { state: post.state, ..pre })
}

/// What the pause input guarantees.
pub open spec fn pause_game_input_rel(pre: World, post: World, escape: bool) -> bool {
    &&& post.state == (if escape {
        GameState::Paused
    } else {
        pre.state
    })
    &&& post == (World { state: post.state, ..pre })
}

/// What one laser-shooting step guarantees: with the laser armed and
/// fire pressed, a pair of lasers leaves the paddle's edges.
pub open spec fn laser_shooting_rel(pre: World, post: World, fire: bool) -> bool {
    &&& ({
        let shoot = pre.effects.has_laser && fire && pre.paddle is Some;
        if shoot {
            let px = pre.paddle->Some_0.pos.x as int;
            let off = scale_rate(PADDLE_WIDTH as int, pre.effects.paddle_size_modifier as int)
                / 3;
            post.lasers@ == pre.lasers@ + seq![
                Laser {
                    pos: Vec2 { x: (px - off) as i64, y: (PADDLE_Y + PADDLE_HEIGHT) as i64 },
                    vel: Vec2 { x: 0, y: LASER_SPEED },
                },
                Laser {
                    pos: Vec2 { x: (px + off) as i64, y: (PADDLE_Y + PADDLE_HEIGHT) as i64 },
                    vel: Vec2 { x: 0, y: LASER_SPEED },
                },
            ]
        } else {
            post.lasers@ == pre.lasers@
        }
    })
    &&& post == (World { lasers: post.lasers, ..pre })
}

/// What the play-field teardown guarantees: every gameplay entity gone,
/// the initialized guard dropped, everything else kept.
pub open spec fn cleanup_game_rel(pre: World, post: World) -> bool {
    &&& post.paddle is None
    &&& post.balls@.len() == 0
    &&& post.bricks@.len() == 0
    &&& post.powerups@.len() == 0
    &&& post.lasers@.len() == 0
    &&& post.particles@.len() == 0
    &&& !post.game_initialized
    &&& post == (World {
        paddle: post.paddle,
        balls: post.balls,
        bricks: post.bricks,
        powerups: post.powerups,
        lasers: post.lasers,
        particles: post.particles,
        game_initialized: post.game_initialized,
        ..pre
    })
}

/// The horizontal paddle position after one movement step: displaced by
/// `dir` times the modified paddle speed over `dt`, then clamped so the
/// scaled paddle stays inside the field.
pub open spec fn paddle_x_after(x: int, dir: int, psize: int, pspeed: int, dt: int) -> int {
    let half = scale_rate(PADDLE_WIDTH as int, psize) / 2;
    let bound = WINDOW_WIDTH as int / 2 - half;
    let moved = x + dir * crate::units::div_tz(scale_rate(PADDLE_SPEED as int, pspeed) * dt, 1000);
    if moved < -bound {
        -bound
    } else if moved > bound {
        bound
    } else {
        moved
    }
}

/// A ball's stored velocity scaled by the power-up and the difficulty
/// ball-speed modifiers.
pub open spec fn effective_vel(v: Vec2, m1: int, m2: int) -> Vec2 {
    Vec2 {
        x: scale_rate(scale_rate(v.x as int, m1), m2) as i64,
        y: scale_rate(scale_rate(v.y as int, m1), m2) as i64,
    }
}

/// The lasers after one integration step: each moves by its velocity, and
/// one that leaves the top of the field is dropped.
pub open spec fn lasers_after_move(s: Seq<Laser>, dt: int) -> Seq<Laser>
    decreases s.len(),
{
    if s.len() == 0 {
        Seq::<Laser>::empty()
    } else {
        let m = Laser { pos: stepped(s[0].pos, s[0].vel, dt), vel: s[0].vel };
        let rest = lasers_after_move(s.drop_first(), dt);
        if m.pos.y > WINDOW_HEIGHT / 2 + 50_000 {
            rest
        } else {
            seq![m] + rest
        }
    }
}

/// The power-ups after one integration step: each falls by its velocity,
/// and one that leaves the bottom of the field is dropped.
pub open spec fn powerups_after_move(s: Seq<PowerUp>, dt: int) -> Seq<PowerUp>
    decreases s.len(),
{
    if s.len() == 0 {
        Seq::<PowerUp>::empty()
    } else {
        let m = PowerUp {
            pos: stepped(s[0].pos, s[0].vel, dt),
            vel: s[0].vel,
            power_type: s[0].power_type,
        };
        let rest = powerups_after_move(s.drop_first(), dt);
        if m.pos.y < -WINDOW_HEIGHT / 2 - 50_000 {
            rest
        } else {
            seq![m] + rest
        }
    }
}

/// The particles after one tick: lifetimes decay by `dt`; a particle whose
/// lifetime runs out is dropped, the others move by their velocity.
pub open spec fn particles_after_tick(s: Seq<Particle>, dt: int) -> Seq<Particle>
    decreases s.len(),
{
    if s.len() == 0 {
        Seq::<Particle>::empty()
    } else {
        let lt = s[0].lifetime_ms - dt;
        let rest = particles_after_tick(s.drop_first(), dt);
        if lt <= 0 {
            rest
        } else {
            seq![
                Particle {
                    pos: stepped(s[0].pos, s[0].vel, dt),
                    vel: s[0].vel,
                    lifetime_ms: lt as i64,
                },
            ] + rest
        }
    }
}

} // verus!
