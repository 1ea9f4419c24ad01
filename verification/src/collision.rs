use vstd::prelude::*;
use crate::effects::{paddle_pickup, speed_pickup, PowerUpEffects, PowerUpType};
use crate::entities::{vel_ok, Ball, Brick, BrickType, Laser, Particle, PowerUp};
use crate::geom::{in_space, spec_collide, spec_overlaps, Collision, Vec2};
use crate::rng::random_in_range;
use crate::units::{div_tz, BALL_SIZE, BALL_SPEED, BRICK_HEIGHT, BRICK_WIDTH, LASER_HEIGHT,
    LASER_WIDTH, MICRO, PADDLE_HEIGHT, PADDLE_Y, PARTICLE_LIFETIME_MS, PARTICLE_SPREAD,
    PADDLE_WIDTH, POWERUP_FALL_SPEED, POWERUP_HEIGHT, POWERUP_WIDTH, ROT_COS, ROT_SIN, VEL_CAP,
    WINDOW_HEIGHT, WINDOW_WIDTH};
use crate::flow::GameState;
use crate::world::World;

verus! {

/// The full extent of a ball as a rectangle.
pub open spec fn ball_extent() -> Vec2 {
    Vec2 { x: BALL_SIZE, y: BALL_SIZE }
}

/// The full extent of a brick.
pub open spec fn brick_extent() -> Vec2 {
    Vec2 { x: BRICK_WIDTH, y: BRICK_HEIGHT }
}

/// The full extent of a laser bolt.
pub open spec fn laser_extent() -> Vec2 {
    Vec2 { x: LASER_WIDTH, y: LASER_HEIGHT }
}

/// Points a ball impact awards for destroying a brick of this kind.
pub open spec fn ball_points(t: BrickType) -> u32 {
    match t {
        BrickType::Normal => 10,
        BrickType::Hard => 20,
        BrickType::Unbreakable => 0,
    }
}

/// Points a laser awards for destroying a brick of this kind; a laser
/// kill pays more than a ball kill.
pub open spec fn laser_points(t: BrickType) -> u32 {
    match t {
        BrickType::Normal => 15,
        BrickType::Hard => 30,
        BrickType::Unbreakable => 0,
    }
}

/// A ball after the field walls act on it: each violated edge clamps the
/// position onto the wall and reflects the perpendicular velocity
/// component back into the field. There is no wall at the bottom.
pub open spec fn spec_resolve_walls(b: Ball) -> Ball {
    let lo = -(WINDOW_WIDTH / 2) + BALL_SIZE / 2;
    let hi = WINDOW_WIDTH / 2 - BALL_SIZE / 2;
    let top = WINDOW_HEIGHT / 2 - BALL_SIZE / 2;
    let x = if b.pos.x < lo {
        lo
    } else if b.pos.x > hi {
        hi
    } else {
        b.pos.x as int
    };
    let vx = if b.pos.x < lo {
        crate::units::abs_i(b.vel.x as int)
    } else if b.pos.x > hi {
        -crate::units::abs_i(b.vel.x as int)
    } else {
        b.vel.x as int
    };
    let y = if b.pos.y > top {
        top
    } else {
        b.pos.y as int
    };
    let vy = if b.pos.y > top {
        -crate::units::abs_i(b.vel.y as int)
    } else {
        b.vel.y as int
    };
    Ball { pos: Vec2 { x: x as i64, y: y as i64 }, vel: Vec2 { x: vx as i64, y: vy as i64 } }
}

/// After a wall-side reflection the velocity component perpendicular to
/// that wall points back into the field: the left wall leaves a
/// rightward x component, the right wall a leftward one, the top wall a
/// downward y component.
pub proof fn lemma_wall_reflection_inward(b: Ball)
    requires
        b.wf(),
    ensures
        b.pos.x < -(WINDOW_WIDTH / 2) + BALL_SIZE / 2 ==> spec_resolve_walls(b).vel.x >= 0,
        b.pos.x > WINDOW_WIDTH / 2 - BALL_SIZE / 2 ==> spec_resolve_walls(b).vel.x <= 0,
        b.pos.y > WINDOW_HEIGHT / 2 - BALL_SIZE / 2 ==> spec_resolve_walls(b).vel.y <= 0,
{
}

/// Exec mirror of `spec_resolve_walls`.
pub fn resolve_walls(b: Ball) -> (r: Ball)
    requires
        b.wf(),
    ensures
        r == spec_resolve_walls(b),
        r.wf(),
{
    let mut x = b.pos.x;
    let mut y = b.pos.y;
    let mut vx = b.vel.x;
    let mut vy = b.vel.y;
    let lo = -(WINDOW_WIDTH / 2) + BALL_SIZE / 2;
    let hi = WINDOW_WIDTH / 2 - BALL_SIZE / 2;
    let top = WINDOW_HEIGHT / 2 - BALL_SIZE / 2;
    if x < lo {
        x = lo;
        vx = if vx < 0 {
            -vx
        } else {
            vx
        };
    } else if x > hi {
        x = hi;
        vx = if vx < 0 {
            vx
        } else {
            -vx
        };
    }
    if y > top {
        y = top;
        vy = if vy < 0 {
            vy
        } else {
            -vy
        };
    }
    Ball { pos: Vec2 { x, y }, vel: Vec2 { x: vx, y: vy } }
}

/// A ball bounced off a brick: the reported side reflects the matching
/// velocity component by flipping its sign.
pub open spec fn spec_brick_bounce(b: Ball, side: Collision) -> Ball {
    match side {
        Collision::Left | Collision::Right => Ball {
            vel: Vec2 { x: (-b.vel.x) as i64, y: b.vel.y },
            ..b
        },
        Collision::Top | Collision::Bottom => Ball {
            vel: Vec2 { x: b.vel.x, y: (-b.vel.y) as i64 },
            ..b
        },
    }
}

/// Exec mirror of `spec_brick_bounce`.
pub fn brick_bounce(b: Ball, side: Collision) -> (r: Ball)
    requires
        b.wf(),
    ensures
        r == spec_brick_bounce(b, side),
        r.wf(),
{
    match side {
        Collision::Left | Collision::Right => Ball {
            vel: Vec2 { x: -b.vel.x, y: b.vel.y },
            ..b
        },
        Collision::Top | Collision::Bottom => Ball {
            vel: Vec2 { x: b.vel.x, y: -b.vel.y },
            ..b
        },
    }
}

/// A ball bounced off the paddle. A side hit flips the x velocity; a
/// top or bottom hit sends the ball strictly upward and recomputes the x
/// velocity from the hit offset: the farther from the paddle's center
/// the ball strikes, the steeper its sideways speed, three quarters of
/// the base ball speed at the paddle's edge.
pub open spec fn spec_paddle_bounce(b: Ball, side: Collision, paddle_x: int, width: int) -> Ball {
    match side {
        Collision::Left | Collision::Right => Ball {
            vel: Vec2 { x: (-b.vel.x) as i64, y: b.vel.y },
            ..b
        },
        Collision::Top | Collision::Bottom => {
            let half = width / 2;
            let vx = div_tz((b.pos.x - paddle_x) * (BALL_SPEED * 3 / 4), half);
            Ball {
                vel: Vec2 { x: vx as i64, y: crate::units::abs_i(b.vel.y as int) as i64 },
                ..b
            }
        },
    }
}

/// Exec mirror of `spec_paddle_bounce`, for a ball that overlaps the
/// paddle.
pub fn paddle_bounce(b: Ball, side: Collision, paddle_x: i64, width: i64) -> (r: Ball)
    requires
        b.wf(),
        -450_000 <= paddle_x <= 450_000,
        60_000 <= width <= 300_000,
        spec_overlaps(
            b.pos,
            ball_extent(),
            Vec2 { x: paddle_x, y: PADDLE_Y },
            Vec2 { x: width, y: PADDLE_HEIGHT },
        ),
    ensures
        r == spec_paddle_bounce(b, side, paddle_x as int, width as int),
        r.wf(),
{
    match side {
        Collision::Left | Collision::Right => Ball {
            vel: Vec2 { x: -b.vel.x, y: b.vel.y },
            ..b
        },
        Collision::Top | Collision::Bottom => {
            let half = width / 2;
            let off = b.pos.x - paddle_x;
            proof {
                assert(-(half + BALL_SIZE / 2) < off < half + BALL_SIZE / 2);
                crate::units::lemma_div_tz_bounds(off * (BALL_SPEED * 3 / 4), half as int);
                assert((-160_000 * 300_000) <= off * (BALL_SPEED * 3 / 4) <= 160_000 * 300_000)
                    by (nonlinear_arith)
                    requires
                        -160_000 <= off <= 160_000,
                ;
                let q = div_tz(off * (BALL_SPEED * 3 / 4), half as int);
                if q >= 0 {
                    assert(30_000 * q <= half * q) by (nonlinear_arith)
                        requires
                            30_000 <= half,
                            q >= 0,
                    ;
                } else {
                    assert(half * q <= 30_000 * q) by (nonlinear_arith)
                        requires
                            30_000 <= half,
                            q < 0,
                    ;
                }
            }
            let vx = (off * (BALL_SPEED * 3 / 4)) / half;
            let vy = if b.vel.y < 0 {
                -b.vel.y
            } else {
                b.vel.y
            };
            Ball { vel: Vec2 { x: vx, y: vy }, ..b }
        },
    }
}

/// What one ball's scan over the brick store leaves behind.
pub struct ScanOutcome {
    pub ball: Ball,
    pub bricks: Seq<Brick>,
    pub destroyed: Option<Brick>,
}

/// The same outcome with untouched bricks put back in front.
pub open spec fn with_prefix(p: Seq<Brick>, o: ScanOutcome) -> ScanOutcome {
    ScanOutcome { bricks: p + o.bricks, ..o }
}

/// One ball's scan over the bricks, in store order. An Unbreakable brick
/// always bounces the ball and never ends the scan; the first breakable
/// overlap ends it: the ball bounces unless the penetrating effect is
/// active, the brick loses one health, and at zero health it leaves the
/// store. At most one breakable brick is damaged per ball per scan.
pub open spec fn spec_ball_scan(ball: Ball, bricks: Seq<Brick>, pen: bool) -> ScanOutcome
    decreases bricks.len(),
{
    if bricks.len() == 0 {
        ScanOutcome { ball, bricks, destroyed: None }
    } else {
        let b0 = bricks[0];
        let rest = bricks.drop_first();
        match spec_collide(ball.pos, ball_extent(), b0.pos, brick_extent()) {
            None => with_prefix(seq![b0], spec_ball_scan(ball, rest, pen)),
            Some(side) => {
                if b0.brick_type is Unbreakable {
                    with_prefix(
                        seq![b0],
                        spec_ball_scan(spec_brick_bounce(ball, side), rest, pen),
                    )
                } else {
                    let ball2 = if pen {
                        ball
                    } else {
                        spec_brick_bounce(ball, side)
                    };
                    if b0.health <= 1 {
                        ScanOutcome { ball: ball2, bricks: rest, destroyed: Some(b0) }
                    } else {
                        ScanOutcome {
                            ball: ball2,
                            bricks: seq![Brick { health: (b0.health - 1) as i32, ..b0 }] + rest,
                            destroyed: None,
                        }
                    }
                }
            },
        }
    }
}

/// Run one ball's brick scan on the store, reporting the brick it
/// destroyed, if any.
pub fn ball_brick_scan(bricks: &mut Vec<Brick>, ball: &mut Ball, pen: bool) -> (destroyed: Option<
    Brick,
>)
    requires
        old(ball).wf(),
        forall|k: int| 0 <= k < old(bricks)@.len() ==> (#[trigger] old(bricks)@[k]).wf(),
    ensures
        ({
            let o = spec_ball_scan(*old(ball), old(bricks)@, pen);
            &&& final(bricks)@ == o.bricks
            &&& *final(ball) == o.ball
            &&& destroyed == o.destroyed
        }),
        final(ball).wf(),
        forall|k: int| 0 <= k < final(bricks)@.len() ==> (#[trigger] final(bricks)@[k]).wf(),
        destroyed is Some ==> destroyed->Some_0.wf(),
{
    let ghost orig = bricks@;
    let ghost ball0 = *ball;
    let mut i: usize = 0;
    let mut stop: bool = false;
    let mut destroyed: Option<Brick> = None;
    proof {
        assert(orig.take(0) =~= Seq::<Brick>::empty());
        assert(orig.take(0) + spec_ball_scan(ball0, orig, pen).bricks =~= spec_ball_scan(
            ball0,
            orig,
            pen,
        ).bricks);
        assert(orig.skip(0) =~= orig);
    }
    while i < bricks.len() && !stop
        invariant
            0 <= i <= bricks@.len(),
            ball.wf(),
            forall|k: int| 0 <= k < bricks@.len() ==> (#[trigger] bricks@[k]).wf(),
            !stop ==> bricks@ == orig && destroyed is None && spec_ball_scan(ball0, orig, pen)
                == with_prefix(
                orig.take(i as int),
                spec_ball_scan(*ball, orig.skip(i as int), pen),
            ),
            stop ==> ({
                let o = spec_ball_scan(ball0, orig, pen);
                &&& bricks@ == o.bricks
                &&& *ball == o.ball
                &&& destroyed == o.destroyed
            }),
            destroyed is Some ==> destroyed->Some_0.wf(),
        decreases bricks@.len() - i, (if stop {
            0int
        } else {
            1int
        }),
    {
        let b0 = bricks[i];
        let side_opt = crate::geom::collide(
            ball.pos,
            Vec2 { x: BALL_SIZE, y: BALL_SIZE },
            b0.pos,
            Vec2 { x: BRICK_WIDTH, y: BRICK_HEIGHT },
        );
        proof {
            assert(orig.skip(i as int)[0] == orig[i as int]);
            assert(orig.skip(i as int).drop_first() =~= orig.skip(i as int + 1));
            assert(orig.take(i as int + 1) =~= orig.take(i as int).push(orig[i as int]));
        }
        let ghost ball_pre = *ball;
        match side_opt {
            None => {
                proof {
                    let inner = spec_ball_scan(ball_pre, orig.skip(i as int + 1), pen);
                    assert(orig.take(i as int) + (seq![orig[i as int]] + inner.bricks)
                        =~= orig.take(i as int + 1) + inner.bricks);
                }
                i += 1;
            },
            Some(side) => {
                if matches!(b0.brick_type, BrickType::Unbreakable) {
                    *ball = brick_bounce(*ball, side);
                    proof {
                        let inner = spec_ball_scan(*ball, orig.skip(i as int + 1), pen);
                        assert(orig.take(i as int) + (seq![orig[i as int]] + inner.bricks)
                            =~= orig.take(i as int + 1) + inner.bricks);
                    }
                    i += 1;
                } else {
                    if !pen {
                        *ball = brick_bounce(*ball, side);
                    }
                    if b0.health <= 1 {
                        bricks.remove(i);
                        destroyed = Some(b0);
                        stop = true;
                        proof {
                            assert(bricks@ =~= orig.take(i as int) + orig.skip(i as int + 1));
                        }
                    } else {
                        bricks.set(i, Brick { health: b0.health - 1, ..b0 });
                        stop = true;
                        proof {
                            let dec = Brick { health: (b0.health - 1) as i32, ..b0 };
                            assert(bricks@ =~= orig.take(i as int) + (seq![dec] + orig.skip(
                                i as int + 1,
                            )));
                        }
                    }
                }
            },
        }
    }
    proof {
        if !stop {
            assert(orig.take(i as int) + orig.skip(i as int) =~= orig);
        }
    }
    destroyed
}

/// The subsequence of Unbreakable bricks, in store order, with their
/// health values.
pub open spec fn unbreakables(s: Seq<Brick>) -> Seq<Brick>
    decreases s.len(),
{
    if s.len() == 0 {
        Seq::<Brick>::empty()
    } else {
        let rest = unbreakables(s.drop_first());
        if s[0].breakable() {
            rest
        } else {
            seq![s[0]] + rest
        }
    }
}

/// `unbreakables` distributes over concatenation.
pub proof fn lemma_unbreakables_add(a: Seq<Brick>, b: Seq<Brick>)
    ensures
        unbreakables(a + b) == unbreakables(a) + unbreakables(b),
    decreases a.len(),
{
    if a.len() == 0 {
        assert(a + b =~= b);
        assert(unbreakables(a) + unbreakables(b) =~= unbreakables(b));
    } else {
        assert((a + b).drop_first() =~= a.drop_first() + b);
        lemma_unbreakables_add(a.drop_first(), b);
        assert((a + b)[0] == a[0]);
        if a[0].breakable() {
        } else {
            assert(seq![a[0]] + (unbreakables(a.drop_first()) + unbreakables(b)) =~= (seq![a[0]]
                + unbreakables(a.drop_first())) + unbreakables(b));
        }
    }
}

/// Unbreakable bricks are invariant under any ball scan: none is
/// removed, none has its health changed, whatever the ball, the brick
/// mix and the penetrating flag.
pub proof fn lemma_ball_scan_preserves_unbreakables(ball: Ball, bricks: Seq<Brick>, pen: bool)
    ensures
        unbreakables(spec_ball_scan(ball, bricks, pen).bricks) == unbreakables(bricks),
    decreases bricks.len(),
{
    if bricks.len() == 0 {
    } else {
        let b0 = bricks[0];
        let rest = bricks.drop_first();
        assert(bricks =~= seq![b0] + rest);
        lemma_unbreakables_add(seq![b0], rest);
        assert(seq![b0].drop_first() =~= Seq::<Brick>::empty());
        match spec_collide(ball.pos, ball_extent(), b0.pos, brick_extent()) {
            None => {
                lemma_ball_scan_preserves_unbreakables(ball, rest, pen);
                let o = spec_ball_scan(ball, rest, pen);
                lemma_unbreakables_add(seq![b0], o.bricks);
            },
            Some(side) => {
                if b0.brick_type is Unbreakable {
                    let ball2 = spec_brick_bounce(ball, side);
                    lemma_ball_scan_preserves_unbreakables(ball2, rest, pen);
                    let o = spec_ball_scan(ball2, rest, pen);
                    lemma_unbreakables_add(seq![b0], o.bricks);
                } else {
                    if b0.health <= 1 {
                    } else {
                        let dec = Brick { health: (b0.health - 1) as i32, ..b0 };
                        lemma_unbreakables_add(seq![dec], rest);
                        assert(seq![dec].drop_first() =~= Seq::<Brick>::empty());
                    }
                }
            },
        }
    }
}

/// What one laser's scan over the brick store leaves behind.
pub struct LaserScanOutcome {
    pub bricks: Seq<Brick>,
    pub hit: bool,
    pub destroyed: Option<Brick>,
}

/// One laser's scan over the bricks, in store order. The laser dies on
/// its first contact of any kind: an Unbreakable brick absorbs it
/// unharmed; a breakable brick takes two damage and leaves the store at
/// zero health or below.
pub open spec fn spec_laser_scan(laser: Laser, bricks: Seq<Brick>) -> LaserScanOutcome
    decreases bricks.len(),
{
    if bricks.len() == 0 {
        LaserScanOutcome { bricks, hit: false, destroyed: None }
    } else {
        let b0 = bricks[0];
        let rest = bricks.drop_first();
        match spec_collide(laser.pos, laser_extent(), b0.pos, brick_extent()) {
            None => {
                let o = spec_laser_scan(laser, rest);
                LaserScanOutcome { bricks: seq![b0] + o.bricks, ..o }
            },
            Some(side) => {
                if b0.brick_type is Unbreakable {
                    LaserScanOutcome { bricks, hit: true, destroyed: None }
                } else if b0.health <= 2 {
                    LaserScanOutcome { bricks: rest, hit: true, destroyed: Some(b0) }
                } else {
                    LaserScanOutcome {
                        bricks: seq![Brick { health: (b0.health - 2) as i32, ..b0 }] + rest,
                        hit: true,
                        destroyed: None,
                    }
                }
            },
        }
    }
}

/// Unbreakable bricks are invariant under any laser scan as well.
pub proof fn lemma_laser_scan_preserves_unbreakables(laser: Laser, bricks: Seq<Brick>)
    ensures
        unbreakables(spec_laser_scan(laser, bricks).bricks) == unbreakables(bricks),
    decreases bricks.len(),
{
    if bricks.len() == 0 {
    } else {
        let b0 = bricks[0];
        let rest = bricks.drop_first();
        assert(bricks =~= seq![b0] + rest);
        lemma_unbreakables_add(seq![b0], rest);
        assert(seq![b0].drop_first() =~= Seq::<Brick>::empty());
        match spec_collide(laser.pos, laser_extent(), b0.pos, brick_extent()) {
            None => {
                lemma_laser_scan_preserves_unbreakables(laser, rest);
                let o = spec_laser_scan(laser, rest);
                lemma_unbreakables_add(seq![b0], o.bricks);
            },
            Some(side) => {
                if b0.brick_type is Unbreakable {
                } else if b0.health <= 2 {
                } else {
                    let dec = Brick { health: (b0.health - 2) as i32, ..b0 };
                    lemma_unbreakables_add(seq![dec], rest);
                    assert(seq![dec].drop_first() =~= Seq::<Brick>::empty());
                }
            },
        }
    }
}

/// Run one laser's brick scan on the store: whether the laser hit
/// anything (and so dies), and the brick it destroyed, if any.
pub fn laser_brick_scan(bricks: &mut Vec<Brick>, laser: Laser) -> (r: (bool, Option<Brick>))
    requires
        laser.wf(),
        forall|k: int| 0 <= k < old(bricks)@.len() ==> (#[trigger] old(bricks)@[k]).wf(),
    ensures
        ({
            let o = spec_laser_scan(laser, old(bricks)@);
            &&& final(bricks)@ == o.bricks
            &&& r.0 == o.hit
            &&& r.1 == o.destroyed
        }),
        forall|k: int| 0 <= k < final(bricks)@.len() ==> (#[trigger] final(bricks)@[k]).wf(),
        r.1 is Some ==> r.1->Some_0.wf(),
{
    let ghost orig = bricks@;
    let mut i: usize = 0;
    let mut stop: bool = false;
    let mut hit: bool = false;
    let mut destroyed: Option<Brick> = None;
    proof {
        assert(orig.take(0) =~= Seq::<Brick>::empty());
        assert(orig.take(0) + spec_laser_scan(laser, orig).bricks =~= spec_laser_scan(
            laser,
            orig,
        ).bricks);
        assert(orig.skip(0) =~= orig);
    }
    while i < bricks.len() && !stop
        invariant
            0 <= i <= bricks@.len(),
            forall|k: int| 0 <= k < bricks@.len() ==> (#[trigger] bricks@[k]).wf(),
            laser.wf(),
            !stop ==> bricks@ == orig && !hit && destroyed is None && ({
                let o = spec_laser_scan(laser, orig);
                let oi = spec_laser_scan(laser, orig.skip(i as int));
                &&& o.bricks == orig.take(i as int) + oi.bricks
                &&& o.hit == oi.hit
                &&& o.destroyed == oi.destroyed
            }),
            stop ==> ({
                let o = spec_laser_scan(laser, orig);
                &&& bricks@ == o.bricks
                &&& hit == o.hit
                &&& destroyed == o.destroyed
            }),
            destroyed is Some ==> destroyed->Some_0.wf(),
        decreases bricks@.len() - i, (if stop {
            0int
        } else {
            1int
        }),
    {
        let b0 = bricks[i];
        let side_opt = crate::geom::collide(
            laser.pos,
            Vec2 { x: LASER_WIDTH, y: LASER_HEIGHT },
            b0.pos,
            Vec2 { x: BRICK_WIDTH, y: BRICK_HEIGHT },
        );
        proof {
            assert(orig.skip(i as int)[0] == orig[i as int]);
            assert(orig.skip(i as int).drop_first() =~= orig.skip(i as int + 1));
            assert(orig.take(i as int + 1) =~= orig.take(i as int).push(orig[i as int]));
        }
        match side_opt {
            None => {
                proof {
                    let inner = spec_laser_scan(laser, orig.skip(i as int + 1));
                    assert(orig.take(i as int) + (seq![orig[i as int]] + inner.bricks)
                        =~= orig.take(i as int + 1) + inner.bricks);
                }
                i += 1;
            },
            Some(_) => {
                hit = true;
                if matches!(b0.brick_type, BrickType::Unbreakable) {
                    stop = true;
                    proof {
                        assert(orig.take(i as int) + orig.skip(i as int) =~= orig);
                    }
                } else if b0.health <= 2 {
                    bricks.remove(i);
                    destroyed = Some(b0);
                    stop = true;
                    proof {
                        assert(bricks@ =~= orig.take(i as int) + orig.skip(i as int + 1));
                    }
                } else {
                    bricks.set(i, Brick { health: b0.health - 2, ..b0 });
                    stop = true;
                    proof {
                        let dec = Brick { health: (b0.health - 2) as i32, ..b0 };
                        assert(bricks@ =~= orig.take(i as int) + (seq![dec] + orig.skip(
                            i as int + 1,
                        )));
                    }
                }
            },
        }
    }
    proof {
        if !stop {
            assert(orig.take(i as int) + orig.skip(i as int) =~= orig);
        }
    }
    (hit, destroyed)
}

/// The full extent of a power-up capsule.
pub open spec fn powerup_extent() -> Vec2 {
    Vec2 { x: POWERUP_WIDTH, y: POWERUP_HEIGHT }
}

/// The score counter saturates upward and never decreases.
pub open spec fn spec_add_score(s: u32, p: u32) -> u32 {
    if s + p > u32::MAX {
        u32::MAX
    } else {
        (s + p) as u32
    }
}

/// Exec mirror of `spec_add_score`.
pub fn add_score(s: u32, p: u32) -> (r: u32)
    ensures
        r == spec_add_score(s, p),
        r >= s,
{
    if s <= u32::MAX - p {
        s + p
    } else {
        u32::MAX
    }
}

/// A velocity component held inside the simulation's speed cap.
pub open spec fn clamp_vel(v: int) -> int {
    if v < -VEL_CAP {
        -VEL_CAP as int
    } else if v > VEL_CAP {
        VEL_CAP as int
    } else {
        v
    }
}

/// A ball velocity rotated by a quarter radian, counterclockwise when
/// `plus` is set and clockwise otherwise, in fixed point; the components
/// are kept inside the speed cap.
pub open spec fn spec_rotate_vel(v: Vec2, plus: bool) -> Vec2 {
    if plus {
        Vec2 {
            x: clamp_vel(div_tz(v.x * ROT_COS - v.y * ROT_SIN, MICRO as int)) as i64,
            y: clamp_vel(div_tz(v.x * ROT_SIN + v.y * ROT_COS, MICRO as int)) as i64,
        }
    } else {
        Vec2 {
            x: clamp_vel(div_tz(v.x * ROT_COS + v.y * ROT_SIN, MICRO as int)) as i64,
            y: clamp_vel(div_tz(-(v.x * ROT_SIN) + v.y * ROT_COS, MICRO as int)) as i64,
        }
    }
}

/// Exec mirror of `spec_rotate_vel`.
pub fn rotate_vel(v: Vec2, plus: bool) -> (r: Vec2)
    requires
        vel_ok(v),
    ensures
        r == spec_rotate_vel(v, plus),
        vel_ok(r),
{
    proof {
        crate::units::lemma_div_tz_bounds(v.x as int * ROT_COS - v.y as int * ROT_SIN, MICRO as int);
        crate::units::lemma_div_tz_bounds(v.x as int * ROT_SIN + v.y as int * ROT_COS, MICRO as int);
        crate::units::lemma_div_tz_bounds(v.x as int * ROT_COS + v.y as int * ROT_SIN, MICRO as int);
        crate::units::lemma_div_tz_bounds(
            -(v.x as int * ROT_SIN) + v.y as int * ROT_COS,
            MICRO as int,
        );
    }
    let cx: i64 = v.x * ROT_COS;
    let sx: i64 = v.x * ROT_SIN;
    let cy: i64 = v.y * ROT_COS;
    let sy: i64 = v.y * ROT_SIN;
    let (nx, ny): (i64, i64) = if plus {
        ((cx - sy) / MICRO, (sx + cy) / MICRO)
    } else {
        ((cx + sy) / MICRO, (-sx + cy) / MICRO)
    };
    let fx: i64 = if nx < -VEL_CAP {
        -VEL_CAP
    } else if nx > VEL_CAP {
        VEL_CAP
    } else {
        nx
    };
    let fy: i64 = if ny < -VEL_CAP {
        -VEL_CAP
    } else if ny > VEL_CAP {
        VEL_CAP
    } else {
        ny
    };
    Vec2 { x: fx, y: fy }
}

/// The effect tracker after one power-up is collected. Size and speed
/// modifiers compound multiplicatively under their clamps; the timed
/// effects arm their flag and timer; MultiBall changes the ball store,
/// not the tracker.
pub open spec fn effects_after_pickup(e: PowerUpEffects, t: PowerUpType) -> PowerUpEffects {
    match t {
        PowerUpType::PaddleExpand => PowerUpEffects {
            paddle_size_modifier: paddle_pickup(e.paddle_size_modifier as int, true) as i64,
            ..e
        },
        PowerUpType::PaddleShrink => PowerUpEffects {
            paddle_size_modifier: paddle_pickup(e.paddle_size_modifier as int, false) as i64,
            ..e
        },
        PowerUpType::BallSpeedUp => PowerUpEffects {
            ball_speed_modifier: speed_pickup(e.ball_speed_modifier as int, true) as i64,
            ..e
        },
        PowerUpType::BallSpeedDown => PowerUpEffects {
            ball_speed_modifier: speed_pickup(e.ball_speed_modifier as int, false) as i64,
            ..e
        },
        PowerUpType::MultiBall => e,
        PowerUpType::PenetratingBall => PowerUpEffects {
            penetrating_ball: true,
            penetrating_timer_ms: 10_000,
            ..e
        },
        PowerUpType::LaserGun => PowerUpEffects { has_laser: true, laser_timer_ms: 15_000, ..e },
    }
}

/// The power-up kind assigned to a seven-way roll.
pub open spec fn spec_powerup_type(roll: int) -> PowerUpType {
    if roll == 0 {
        PowerUpType::PaddleExpand
    } else if roll == 1 {
        PowerUpType::PaddleShrink
    } else if roll == 2 {
        PowerUpType::BallSpeedUp
    } else if roll == 3 {
        PowerUpType::BallSpeedDown
    } else if roll == 4 {
        PowerUpType::MultiBall
    } else if roll == 5 {
        PowerUpType::PenetratingBall
    } else {
        PowerUpType::LaserGun
    }
}

/// Exec mirror of `spec_powerup_type`.
pub fn powerup_type_for(roll: i64) -> (r: PowerUpType)
    ensures
        r == spec_powerup_type(roll as int),
{
    if roll == 0 {
        PowerUpType::PaddleExpand
    } else if roll == 1 {
        PowerUpType::PaddleShrink
    } else if roll == 2 {
        PowerUpType::BallSpeedUp
    } else if roll == 3 {
        PowerUpType::BallSpeedDown
    } else if roll == 4 {
        PowerUpType::MultiBall
    } else if roll == 5 {
        PowerUpType::PenetratingBall
    } else {
        PowerUpType::LaserGun
    }
}

/// Ten debris particles appended at a destroyed brick's position: each
/// keeps the fixed lifetime and a drawn velocity within the spread
/// bound; the particles already there are untouched.
pub open spec fn burst_at(pre: Seq<Particle>, post: Seq<Particle>, pos: Vec2) -> bool {
    &&& post.len() == pre.len() + 10
    &&& forall|k: int| 0 <= k < pre.len() ==> post[k] == pre[k]
    &&& forall|k: int|
        pre.len() <= k < post.len() ==> ((#[trigger] post[k]).pos == pos && post[k].lifetime_ms
            == PARTICLE_LIFETIME_MS && -PARTICLE_SPREAD <= post[k].vel.x < PARTICLE_SPREAD
            && -PARTICLE_SPREAD <= post[k].vel.y < PARTICLE_SPREAD)
}

/// One capsule appended at a destroyed brick's position, falling at the
/// fixed capsule speed; the capsules already there are untouched.
pub open spec fn capsule_at(pre: Seq<PowerUp>, post: Seq<PowerUp>, pos: Vec2) -> bool {
    &&& post.len() == pre.len() + 1
    &&& forall|k: int| 0 <= k < pre.len() ==> post[k] == pre[k]
    &&& post.last().pos == pos
    &&& post.last().vel == (Vec2 { x: 0, y: (-POWERUP_FALL_SPEED) as i64 })
}

/// The capsule drop roll at a destroyed brick's position: one chance in
/// five adds a capsule there, otherwise the store is unchanged.
pub open spec fn drop_roll_at(pre: Seq<PowerUp>, post: Seq<PowerUp>, pos: Vec2) -> bool {
    ||| post == pre
    ||| capsule_at(pre, post, pos)
}

impl World {
    /// Emit a burst of ten debris particles at a destroyed brick's
    /// position, each with a random spread velocity and a one-second
    /// lifetime.
    pub fn spawn_particles(&mut self, pos: Vec2)
        requires
            old(self).wf(),
            in_space(pos),
        ensures
            final(self).wf(),
            burst_at(old(self).particles@, final(self).particles@, pos),
            *final(self) == (World { particles: final(self).particles, ..*old(self) }),
    {
        let mut n: usize = 0;
        while n < 10
            invariant
                0 <= n <= 10,
                in_space(pos),
                old(self).wf(),
                self.particles@.len() == old(self).particles@.len() + n,
                forall|k: int|
                    0 <= k < old(self).particles@.len() ==> self.particles@[k] == old(
                        self,
                    ).particles@[k],
                forall|k: int|
                    old(self).particles@.len() <= k < self.particles@.len() ==> ((
                    #[trigger] self.particles@[k]).pos == pos && self.particles@[k].lifetime_ms
                        == PARTICLE_LIFETIME_MS && -PARTICLE_SPREAD <= self.particles@[k].vel.x
                        < PARTICLE_SPREAD && -PARTICLE_SPREAD <= self.particles@[k].vel.y
                        < PARTICLE_SPREAD && self.particles@[k].wf()),
                *self == (World { particles: self.particles, ..*old(self) }),
            decreases 10 - n,
        {
            let vx = random_in_range(-PARTICLE_SPREAD, PARTICLE_SPREAD);
            let vy = random_in_range(-PARTICLE_SPREAD, PARTICLE_SPREAD);
            self.particles.push(
                Particle {
                    pos,
                    vel: Vec2 { x: vx, y: vy },
                    lifetime_ms: PARTICLE_LIFETIME_MS,
                },
            );
            n += 1;
        }
    }

    /// Drop a power-up capsule of a random kind at a destroyed brick's
    /// position, falling at the fixed capsule speed.
    pub fn spawn_powerup(&mut self, pos: Vec2)
        requires
            old(self).wf(),
            in_space(pos),
        ensures
            final(self).wf(),
            capsule_at(old(self).powerups@, final(self).powerups@, pos),
            *final(self) == (World { powerups: final(self).powerups, ..*old(self) }),
    {
        let roll = random_in_range(0, 7);
        let power_type = powerup_type_for(roll);
        self.powerups.push(
            PowerUp { pos, vel: Vec2 { x: 0, y: -POWERUP_FALL_SPEED }, power_type },
        );
    }
}

/// The loss condition one resolver pass detects: the only ball has
/// crossed the bottom edge. What follows depends on the lives left.
pub open spec fn last_ball_fell(w: World) -> bool {
    &&& w.paddle is Some
    &&& w.balls@.len() == 1
    &&& w.balls@[0].pos.y < -(WINDOW_HEIGHT / 2)
}

/// The fresh ball a loss respawns: at the drop point, leaving
/// diagonally at the base speed scaled by the difficulty modifier,
/// rightward or leftward by the draw.
pub open spec fn spec_respawn_ball(ball_mod: int, to_right: bool) -> Ball {
    let c = crate::units::scale_rate(
        crate::units::scale_rate(BALL_SPEED as int, crate::units::DIAG as int),
        ball_mod,
    );
    Ball {
        pos: Vec2 { x: 0, y: crate::units::BALL_SPAWN_Y },
        vel: Vec2 {
            x: (if to_right {
                c
            } else {
                -c
            }) as i64,
            y: c as i64,
        },
    }
}

/// The stores and ledger fields one resolver pass threads from ball to
/// ball.
pub struct ResolveState {
    pub balls: Seq<Ball>,
    pub bricks: Seq<Brick>,
    pub score: u32,
    pub lives: u32,
    pub state: GameState,
    pub powerups: Seq<PowerUp>,
    pub particles: Seq<Particle>,
}

/// What the paddle and brick stages do for one ball `b2` (the ball
/// after walls and bottom handling): bounce off the paddle at the side
/// the overlap test reports, then run the brick scan; a destroyed brick
/// pays its ball score, bursts into ten particles and rolls a capsule
/// drop. A ball removed by the bottom rule is still processed but not
/// kept.
pub open spec fn ball_tail_rel(
    pre: ResolveState,
    post: ResolveState,
    b2: Ball,
    paddle_x: int,
    width: int,
    pen: bool,
    removed: bool,
) -> bool {
    let b3 = match spec_collide(
        b2.pos,
        ball_extent(),
        Vec2 { x: paddle_x as i64, y: PADDLE_Y },
        Vec2 { x: width as i64, y: PADDLE_HEIGHT },
    ) {
        Some(side) => spec_paddle_bounce(b2, side, paddle_x, width),
        None => b2,
    };
    let o = spec_ball_scan(b3, pre.bricks, pen);
    &&& post.bricks == o.bricks
    &&& post.balls == (if removed {
        pre.balls
    } else {
        pre.balls.push(o.ball)
    })
    &&& (match o.destroyed {
        Some(br) => {
            &&& post.score == spec_add_score(pre.score, ball_points(br.brick_type))
            &&& burst_at(pre.particles, post.particles, br.pos)
            &&& drop_roll_at(pre.powerups, post.powerups, br.pos)
        },
        None => post.score == pre.score && post.particles == pre.particles && post.powerups
            == pre.powerups,
    })
}

/// One ball's full resolution: walls, the bottom-loss rule, then the
/// paddle and brick stages. `total` is the ball count when the pass
/// started: a fallen ball among several is removed; the last ball ends
/// the game on the last life, and otherwise costs a life and respawns
/// with a drawn diagonal direction.
pub open spec fn ball_step_rel(
    pre: ResolveState,
    post: ResolveState,
    ball0: Ball,
    paddle_x: int,
    width: int,
    pen: bool,
    total: int,
    ball_mod: int,
) -> bool {
    let b1 = spec_resolve_walls(ball0);
    let fell = b1.pos.y < -(WINDOW_HEIGHT / 2);
    if fell {
        if total > 1 {
            &&& post.lives == pre.lives
            &&& post.state == pre.state
            &&& ball_tail_rel(pre, post, b1, paddle_x, width, pen, true)
        } else if pre.lives == 1 {
            &&& post.lives == pre.lives
            &&& post.state == GameState::GameOver
            &&& ball_tail_rel(pre, post, b1, paddle_x, width, pen, false)
        } else {
            &&& post.lives == (if pre.lives > 0 {
                (pre.lives - 1) as u32
            } else {
                0u32
            })
            &&& post.state == pre.state
            &&& (ball_tail_rel(
                pre,
                post,
                spec_respawn_ball(ball_mod, true),
                paddle_x,
                width,
                pen,
                false,
            ) || ball_tail_rel(
                pre,
                post,
                spec_respawn_ball(ball_mod, false),
                paddle_x,
                width,
                pen,
                false,
            ))
        }
    } else {
        &&& post.lives == pre.lives
        &&& post.state == pre.state
        &&& ball_tail_rel(pre, post, b1, paddle_x, width, pen, false)
    }
}

/// A whole resolver pass, ball by ball in store order, as a relation:
/// relational only where a random draw enters (the respawn direction,
/// the capsule roll, the debris velocities).
pub open spec fn ball_pass_rel(
    pre: ResolveState,
    post: ResolveState,
    balls: Seq<Ball>,
    paddle_x: int,
    width: int,
    pen: bool,
    total: int,
    ball_mod: int,
) -> bool
    decreases balls.len(),
{
    if balls.len() == 0 {
        post == pre
    } else {
        exists|mid: ResolveState|
            #[trigger] ball_step_rel(pre, mid, balls[0], paddle_x, width, pen, total, ball_mod)
                && ball_pass_rel(mid, post, balls.drop_first(), paddle_x, width, pen, total, ball_mod)
    }
}

/// Extending a pass by one more processed ball extends the relation.
pub proof fn lemma_ball_pass_rel_snoc(
    pre: ResolveState,
    mid: ResolveState,
    post: ResolveState,
    balls: Seq<Ball>,
    b: Ball,
    paddle_x: int,
    width: int,
    pen: bool,
    total: int,
    ball_mod: int,
)
    requires
        ball_pass_rel(pre, mid, balls, paddle_x, width, pen, total, ball_mod),
        ball_step_rel(mid, post, b, paddle_x, width, pen, total, ball_mod),
    ensures
        ball_pass_rel(pre, post, balls.push(b), paddle_x, width, pen, total, ball_mod),
    decreases balls.len(),
{
    if balls.len() == 0 {
        assert(mid == pre);
        assert(balls.push(b)[0] == b);
        assert(balls.push(b).drop_first() =~= Seq::<Ball>::empty());
        assert(ball_pass_rel(
            post,
            post,
            balls.push(b).drop_first(),
            paddle_x,
            width,
            pen,
            total,
            ball_mod,
        ));
        assert(ball_step_rel(pre, post, balls.push(b)[0], paddle_x, width, pen, total, ball_mod)
            && ball_pass_rel(
            post,
            post,
            balls.push(b).drop_first(),
            paddle_x,
            width,
            pen,
            total,
            ball_mod,
        ));
    } else {
        let m1 = choose|m1: ResolveState|
            #[trigger] ball_step_rel(pre, m1, balls[0], paddle_x, width, pen, total, ball_mod)
                && ball_pass_rel(
                m1,
                mid,
                balls.drop_first(),
                paddle_x,
                width,
                pen,
                total,
                ball_mod,
            );
        lemma_ball_pass_rel_snoc(
            m1,
            mid,
            post,
            balls.drop_first(),
            b,
            paddle_x,
            width,
            pen,
            total,
            ball_mod,
        );
        assert(balls.push(b)[0] == balls[0]);
        assert(balls.push(b).drop_first() =~= balls.drop_first().push(b));
        assert(ball_step_rel(pre, m1, balls.push(b)[0], paddle_x, width, pen, total, ball_mod)
            && ball_pass_rel(
            m1,
            post,
            balls.push(b).drop_first(),
            paddle_x,
            width,
            pen,
            total,
            ball_mod,
        ));
    }
}

/// Everything one ball-collision pass guarantees. With no paddle the
/// pass is a no-op; with a paddle the stores and the ledger after the
/// pass are related to the per-ball resolution fold, and the pass-level
/// consequences hold: the score only grows, Unbreakable bricks are
/// untouched, the loss rule fires exactly on the last ball, and lives
/// are accounted exactly.
pub open spec fn ball_collision_rel(pre: World, post: World) -> bool {
    &&& (pre.paddle is None ==> post == pre)
    &&& post.score >= pre.score
    &&& unbreakables(post.bricks@) == unbreakables(pre.bricks@)
    &&& post.state == (if last_ball_fell(pre) && pre.lives == 1 {
        GameState::GameOver
    } else {
        pre.state
    })
    &&& post.lives == (if last_ball_fell(pre) && pre.lives > 1 {
        (pre.lives - 1) as u32
    } else {
        pre.lives
    })
    &&& post.balls@.len() <= pre.balls@.len()
    &&& (pre.paddle is Some && pre.balls@.len() == 1 ==> post.balls@.len() == 1)
    &&& post.powerups@.len() >= pre.powerups@.len()
    &&& (forall|k: int| 0 <= k < pre.powerups@.len() ==> post.powerups@[k] == pre.powerups@[k])
    &&& (forall|k: int| 0 <= k < pre.particles@.len() ==> post.particles@[k] == pre.particles@[k])
    &&& post == (World {
        state: post.state,
        lives: post.lives,
        score: post.score,
        balls: post.balls,
        bricks: post.bricks,
        powerups: post.powerups,
        particles: post.particles,
        ..pre
    })
    &&& (pre.paddle is Some ==> ball_pass_rel(
        ResolveState {
            balls: Seq::<Ball>::empty(),
            bricks: pre.bricks@,
            score: pre.score,
            lives: pre.lives,
            state: pre.state,
            powerups: pre.powerups@,
            particles: pre.particles@,
        },
        ResolveState {
            balls: post.balls@,
            bricks: post.bricks@,
            score: post.score,
            lives: post.lives,
            state: post.state,
            powerups: post.powerups@,
            particles: post.particles@,
        },
        pre.balls@,
        pre.paddle->Some_0.pos.x as int,
        crate::units::scale_rate(
            PADDLE_WIDTH as int,
            pre.effects.paddle_size_modifier as int,
        ),
        pre.effects.penetrating_ball,
        pre.balls@.len() as int,
        pre.settings.ball_speed_modifier as int,
    ))
}

impl World {
    /// Resolve one tick of ball collisions: walls, the bottom-loss rule,
    /// the paddle, then the brick scan, one ball at a time. A ball that
    /// crosses the bottom is removed while others remain; the last ball
    /// ends the game on the last life, and costs a life and respawns
    /// otherwise. A destroyed brick awards score, bursts into particles
    /// and has a one-in-five chance of dropping a power-up. With no
    /// paddle present the pass is a no-op.
    pub fn ball_collision(&mut self)
        requires
            old(self).wf(),
            old(self).state is Playing,
        ensures
            final(self).wf(),
            ball_collision_rel(*old(self), *final(self)),
    {
        let ghost w0 = *old(self);
        let paddle = match self.paddle {
            Some(p) => p,
            None => {
                return ;
            },
        };
        let width = crate::units::apply_rate(PADDLE_WIDTH, self.effects.paddle_size_modifier);
        let pen = self.effects.penetrating_ball;
        let total = self.balls.len();
        let mut kept: Vec<Ball> = Vec::new();
        let mut i: usize = 0;
        let ghost rs0 = ResolveState {
            balls: Seq::<Ball>::empty(),
            bricks: w0.bricks@,
            score: w0.score,
            lives: w0.lives,
            state: w0.state,
            powerups: w0.powerups@,
            particles: w0.particles@,
        };
        proof {
            assert(kept@ =~= Seq::<Ball>::empty());
            assert(w0.balls@.take(0) =~= Seq::<Ball>::empty());
        }
        while i < total
            invariant
                0 <= i <= total,
                total == self.balls@.len(),
                self.balls@ == w0.balls@,
                w0 == *old(self),
                w0.wf(),
                w0.paddle is Some,
                paddle == w0.paddle->Some_0,
                pen == w0.effects.penetrating_ball,
                60_000 <= width <= 300_000,
                width == crate::units::scale_rate(
                    PADDLE_WIDTH as int,
                    w0.effects.paddle_size_modifier as int,
                ),
                self.score >= w0.score,
                unbreakables(self.bricks@) == unbreakables(w0.bricks@),
                forall|k: int| 0 <= k < self.bricks@.len() ==> (#[trigger] self.bricks@[k]).wf(),
                self.state == (if total == 1 && i >= 1 && w0.balls@[0].pos.y < -(WINDOW_HEIGHT
                    / 2) && w0.lives == 1 {
                    GameState::GameOver
                } else {
                    GameState::Playing
                }),
                self.lives == (if total == 1 && i >= 1 && w0.balls@[0].pos.y < -(WINDOW_HEIGHT
                    / 2) && w0.lives > 1 {
                    (w0.lives - 1) as u32
                } else {
                    w0.lives
                }),
                kept@.len() <= i,
                total == 1 && i == 1 ==> kept@.len() == 1,
                forall|k: int| 0 <= k < kept@.len() ==> (#[trigger] kept@[k]).wf(),
                self.powerups@.len() >= w0.powerups@.len(),
                forall|k: int|
                    0 <= k < w0.powerups@.len() ==> self.powerups@[k] == w0.powerups@[k],
                forall|k: int|
                    0 <= k < w0.powerups@.len() ==> (#[trigger] self.powerups@[k]).wf(),
                forall|k: int|
                    w0.powerups@.len() <= k < self.powerups@.len() ==> (
                    #[trigger] self.powerups@[k]).wf(),
                self.particles@.len() >= w0.particles@.len(),
                forall|k: int|
                    0 <= k < w0.particles@.len() ==> self.particles@[k] == w0.particles@[k],
                forall|k: int|
                    0 <= k < self.particles@.len() ==> (#[trigger] self.particles@[k]).wf(),
                *self == (World {
                    state: self.state,
                    lives: self.lives,
                    score: self.score,
                    bricks: self.bricks,
                    powerups: self.powerups,
                    particles: self.particles,
                    ..w0
                }),
                rs0 == (ResolveState {
                    balls: Seq::<Ball>::empty(),
                    bricks: w0.bricks@,
                    score: w0.score,
                    lives: w0.lives,
                    state: w0.state,
                    powerups: w0.powerups@,
                    particles: w0.particles@,
                }),
                ball_pass_rel(
                    rs0,
                    ResolveState {
                        balls: kept@,
                        bricks: self.bricks@,
                        score: self.score,
                        lives: self.lives,
                        state: self.state,
                        powerups: self.powerups@,
                        particles: self.particles@,
                    },
                    w0.balls@.take(i as int),
                    paddle.pos.x as int,
                    width as int,
                    pen,
                    total as int,
                    w0.settings.ball_speed_modifier as int,
                ),
            decreases total - i,
        {
            let ghost rs_pre = ResolveState {
                balls: kept@,
                bricks: self.bricks@,
                score: self.score,
                lives: self.lives,
                state: self.state,
                powerups: self.powerups@,
                particles: self.particles@,
            };
            let ghost ball_in = self.balls@[i as int];
            let mut ball = self.balls[i];
            ball = resolve_walls(ball);
            let mut fell = false;
            if ball.pos.y < -(WINDOW_HEIGHT / 2) {
                if total > 1 {
                    fell = true;
                } else if self.lives == 1 {
                    self.state = GameState::GameOver;
                } else {
                    self.lives = if self.lives > 0 {
                        self.lives - 1
                    } else {
                        0
                    };
                    ball.pos = Vec2 { x: 0, y: crate::units::BALL_SPAWN_Y };
                    let c0 = crate::units::apply_rate(BALL_SPEED, crate::units::DIAG);
                    let c = crate::units::apply_rate(c0, self.settings.ball_speed_modifier);
                    let flip = random_in_range(0, 2);
                    ball.vel = Vec2 {
                        x: if flip == 0 {
                            c
                        } else {
                            -c
                        },
                        y: c,
                    };
                    proof {
                        let bmod = w0.settings.ball_speed_modifier as int;
                        assert(ball == spec_respawn_ball(bmod, true) || ball
                            == spec_respawn_ball(bmod, false));
                    }
                }
            }
            let ghost b2 = ball;
            match crate::geom::collide(
                ball.pos,
                Vec2 { x: BALL_SIZE, y: BALL_SIZE },
                Vec2 { x: paddle.pos.x, y: PADDLE_Y },
                Vec2 { x: width, y: PADDLE_HEIGHT },
            ) {
                Some(side) => {
                    ball = paddle_bounce(ball, side, paddle.pos.x, width);
                },
                None => {},
            }
            let ghost bricks_pre = self.bricks@;
            let ghost ball_pre = ball;
            let destroyed = ball_brick_scan(&mut self.bricks, &mut ball, pen);
            proof {
                lemma_ball_scan_preserves_unbreakables(ball_pre, bricks_pre, pen);
            }
            match destroyed {
                Some(b) => {
                    let pts: u32 = match b.brick_type {
                        BrickType::Normal => 10,
                        BrickType::Hard => 20,
                        BrickType::Unbreakable => 0,
                    };
                    self.score = add_score(self.score, pts);
                    self.spawn_particles(b.pos);
                    let roll = random_in_range(0, 100);
                    if roll < 20 {
                        self.spawn_powerup(b.pos);
                    }
                },
                None => {},
            }
            if !fell {
                kept.push(ball);
            }
            proof {
                let rs_post = ResolveState {
                    balls: kept@,
                    bricks: self.bricks@,
                    score: self.score,
                    lives: self.lives,
                    state: self.state,
                    powerups: self.powerups@,
                    particles: self.particles@,
                };
                let px = paddle.pos.x as int;
                let widthi = width as int;
                let bmod = w0.settings.ball_speed_modifier as int;
                assert(ball_tail_rel(rs_pre, rs_post, b2, px, widthi, pen, fell));
                assert(ball_step_rel(rs_pre, rs_post, ball_in, px, widthi, pen, total as int, bmod));
                lemma_ball_pass_rel_snoc(
                    rs0,
                    rs_pre,
                    rs_post,
                    w0.balls@.take(i as int),
                    ball_in,
                    px,
                    widthi,
                    pen,
                    total as int,
                    bmod,
                );
                assert(w0.balls@.take(i as int + 1) =~= w0.balls@.take(i as int).push(ball_in));
            }
            i += 1;
        }
        proof {
            assert(w0.balls@.take(total as int) =~= w0.balls@);
        }
        self.balls = kept;
    }
}

/// What one pass of laser resolution leaves of the lasers, the bricks
/// and the score.
pub struct LaserPassOutcome {
    pub lasers: Seq<Laser>,
    pub bricks: Seq<Brick>,
    pub score: u32,
}

/// One resolution pass over the lasers, in store order: each laser runs
/// its brick scan against the bricks the previous lasers left, a
/// destroyed brick pays the laser score, and a laser that hit anything
/// is gone.
pub open spec fn spec_laser_pass(lasers: Seq<Laser>, bricks: Seq<Brick>, score: u32) -> LaserPassOutcome
    decreases lasers.len(),
{
    if lasers.len() == 0 {
        LaserPassOutcome { lasers, bricks, score }
    } else {
        let l = lasers[0];
        let o = spec_laser_scan(l, bricks);
        let s2 = match o.destroyed {
            Some(b) => spec_add_score(score, laser_points(b.brick_type)),
            None => score,
        };
        let rest = spec_laser_pass(lasers.drop_first(), o.bricks, s2);
        if o.hit {
            rest
        } else {
            LaserPassOutcome { lasers: seq![l] + rest.lasers, ..rest }
        }
    }
}

/// Appending one more laser to a pass: the new laser scans the bricks
/// the pass left, pays its kill, and survives only if it hit nothing.
pub proof fn lemma_laser_pass_snoc(lasers: Seq<Laser>, bricks: Seq<Brick>, score: u32, l: Laser)
    ensures
        ({
            let p = spec_laser_pass(lasers, bricks, score);
            let o = spec_laser_scan(l, p.bricks);
            let s2 = match o.destroyed {
                Some(b) => spec_add_score(p.score, laser_points(b.brick_type)),
                None => p.score,
            };
            spec_laser_pass(lasers.push(l), bricks, score) == (LaserPassOutcome {
                lasers: if o.hit {
                    p.lasers
                } else {
                    p.lasers.push(l)
                },
                bricks: o.bricks,
                score: s2,
            })
        }),
    decreases lasers.len(),
{
    let p = spec_laser_pass(lasers, bricks, score);
    let o = spec_laser_scan(l, p.bricks);
    if lasers.len() == 0 {
        assert(lasers =~= Seq::<Laser>::empty());
        assert(p.bricks == bricks && p.score == score && p.lasers == lasers);
        assert(lasers.push(l)[0] == l);
        assert(lasers.push(l).drop_first() =~= lasers);
        let s2v = match o.destroyed {
            Some(b) => spec_add_score(score, laser_points(b.brick_type)),
            None => score,
        };
        assert(spec_laser_pass(lasers, o.bricks, s2v) == (LaserPassOutcome {
            lasers,
            bricks: o.bricks,
            score: s2v,
        }));
        if !o.hit {
            assert(seq![l] + p.lasers =~= p.lasers.push(l));
        }
    } else {
        let l0 = lasers[0];
        let o0 = spec_laser_scan(l0, bricks);
        let s0 = match o0.destroyed {
            Some(b) => spec_add_score(score, laser_points(b.brick_type)),
            None => score,
        };
        assert(lasers.push(l)[0] == l0);
        assert(lasers.push(l).drop_first() =~= lasers.drop_first().push(l));
        lemma_laser_pass_snoc(lasers.drop_first(), o0.bricks, s0, l);
        let pr = spec_laser_pass(lasers.drop_first(), o0.bricks, s0);
        assert(p == (if o0.hit {
            pr
        } else {
            LaserPassOutcome { lasers: seq![l0] + pr.lasers, ..pr }
        }));
        assert(o == spec_laser_scan(l, pr.bricks));
        let rest2 = spec_laser_pass(lasers.push(l).drop_first(), o0.bricks, s0);
        assert(rest2 == spec_laser_pass(lasers.drop_first().push(l), o0.bricks, s0));
        assert(spec_laser_pass(lasers.push(l), bricks, score) == (if o0.hit {
            rest2
        } else {
            LaserPassOutcome { lasers: seq![l0] + rest2.lasers, ..rest2 }
        }));
        if !o0.hit {
            if o.hit {
                assert(p.lasers == seq![l0] + pr.lasers);
            } else {
                assert((seq![l0] + pr.lasers).push(l) =~= seq![l0] + pr.lasers.push(l));
                assert(p.lasers.push(l) == seq![l0] + pr.lasers.push(l));
            }
        }
    }
}

/// The particle bursts a laser pass emits: one burst of ten at each
/// destroyed brick's position, threaded through the pass in laser
/// order.
pub open spec fn laser_burst_rel(
    lasers: Seq<Laser>,
    bricks: Seq<Brick>,
    pre: Seq<Particle>,
    post: Seq<Particle>,
) -> bool
    decreases lasers.len(),
{
    if lasers.len() == 0 {
        post == pre
    } else {
        let o = spec_laser_scan(lasers[0], bricks);
        match o.destroyed {
            Some(b) => exists|mid: Seq<Particle>|
                #[trigger] burst_at(pre, mid, b.pos) && laser_burst_rel(
                    lasers.drop_first(),
                    o.bricks,
                    mid,
                    post,
                ),
            None => laser_burst_rel(lasers.drop_first(), o.bricks, pre, post),
        }
    }
}

/// Extending a pass by one more laser extends its particle bursts.
pub proof fn lemma_laser_burst_snoc(
    lasers: Seq<Laser>,
    bricks: Seq<Brick>,
    score: u32,
    p0: Seq<Particle>,
    p1: Seq<Particle>,
    p2: Seq<Particle>,
    l: Laser,
)
    requires
        laser_burst_rel(lasers, bricks, p0, p1),
        ({
            let o = spec_laser_scan(l, spec_laser_pass(lasers, bricks, score).bricks);
            match o.destroyed {
                Some(b) => burst_at(p1, p2, b.pos),
                None => p2 == p1,
            }
        }),
    ensures
        laser_burst_rel(lasers.push(l), bricks, p0, p2),
    decreases lasers.len(),
{
    if lasers.len() == 0 {
        assert(lasers =~= Seq::<Laser>::empty());
        assert(spec_laser_pass(lasers, bricks, score).bricks == bricks);
        assert(lasers.push(l)[0] == l);
        assert(lasers.push(l).drop_first() =~= lasers);
        assert(p1 == p0);
        let o = spec_laser_scan(l, bricks);
        match o.destroyed {
            Some(b) => {
                assert(laser_burst_rel(lasers, o.bricks, p2, p2));
                assert(burst_at(p0, p2, b.pos) && laser_burst_rel(
                    lasers.push(l).drop_first(),
                    o.bricks,
                    p2,
                    p2,
                ));
            },
            None => {
                assert(laser_burst_rel(lasers.push(l).drop_first(), o.bricks, p0, p2));
            },
        }
    } else {
        let l0 = lasers[0];
        let o0 = spec_laser_scan(l0, bricks);
        let s0 = match o0.destroyed {
            Some(b) => spec_add_score(score, laser_points(b.brick_type)),
            None => score,
        };
        assert(lasers.push(l)[0] == l0);
        assert(lasers.push(l).drop_first() =~= lasers.drop_first().push(l));
        assert(spec_laser_pass(lasers, bricks, score).bricks == spec_laser_pass(
            lasers.drop_first(),
            o0.bricks,
            s0,
        ).bricks);
        match o0.destroyed {
            Some(b) => {
                let mid = choose|mid: Seq<Particle>|
                    #[trigger] burst_at(p0, mid, b.pos) && laser_burst_rel(
                        lasers.drop_first(),
                        o0.bricks,
                        mid,
                        p1,
                    );
                lemma_laser_burst_snoc(lasers.drop_first(), o0.bricks, s0, mid, p1, p2, l);
                assert(burst_at(p0, mid, b.pos) && laser_burst_rel(
                    lasers.push(l).drop_first(),
                    o0.bricks,
                    mid,
                    p2,
                ));
            },
            None => {
                lemma_laser_burst_snoc(lasers.drop_first(), o0.bricks, s0, p0, p1, p2, l);
            },
        }
    }
}

/// Everything one laser-collision pass guarantees: the lasers, bricks
/// and score after it equal the deterministic laser pass over the
/// stores it started from, each destroyed brick burst into ten
/// particles, and only the four stores the pass touches changed.
pub open spec fn laser_collision_rel(pre: World, post: World) -> bool {
    &&& post.score >= pre.score
    &&& unbreakables(post.bricks@) == unbreakables(pre.bricks@)
    &&& post.lasers@.len() <= pre.lasers@.len()
    &&& (forall|k: int| 0 <= k < pre.particles@.len() ==> post.particles@[k] == pre.particles@[k])
    &&& ({
        let o = spec_laser_pass(pre.lasers@, pre.bricks@, pre.score);
        &&& post.lasers@ == o.lasers
        &&& post.bricks@ == o.bricks
        &&& post.score == o.score
    })
    &&& laser_burst_rel(pre.lasers@, pre.bricks@, pre.particles@, post.particles@)
    &&& post == (World {
        score: post.score,
        bricks: post.bricks,
        lasers: post.lasers,
        particles: post.particles,
        ..pre
    })
}

/// Unbreakable bricks survive a whole laser pass unchanged.
pub proof fn lemma_laser_pass_preserves_unbreakables(
    lasers: Seq<Laser>,
    bricks: Seq<Brick>,
    score: u32,
)
    ensures
        unbreakables(spec_laser_pass(lasers, bricks, score).bricks) == unbreakables(bricks),
    decreases lasers.len(),
{
    if lasers.len() == 0 {
    } else {
        let l = lasers[0];
        let o = spec_laser_scan(l, bricks);
        lemma_laser_scan_preserves_unbreakables(l, bricks);
        let s2 = match o.destroyed {
            Some(b) => spec_add_score(score, laser_points(b.brick_type)),
            None => score,
        };
        lemma_laser_pass_preserves_unbreakables(lasers.drop_first(), o.bricks, s2);
    }
}

impl World {
    /// Resolve one tick of laser-brick collisions, laser by laser. Each
    /// laser dies on its first brick contact of any kind; a destroyed
    /// brick awards the higher laser score and bursts into particles,
    /// and never drops a power-up.
    pub fn laser_collision(&mut self)
        requires
            old(self).wf(),
        ensures
            final(self).wf(),
            laser_collision_rel(*old(self), *final(self)),
    {
        let ghost w0 = *old(self);
        let total = self.lasers.len();
        let mut kept: Vec<Laser> = Vec::new();
        let mut i: usize = 0;
        proof {
            assert(w0.lasers@.take(0) =~= Seq::<Laser>::empty());
            let pp = spec_laser_pass(w0.lasers@.take(0), w0.bricks@, w0.score);
            assert(pp.lasers == w0.lasers@.take(0));
            assert(kept@ =~= w0.lasers@.take(0));
            assert(laser_burst_rel(w0.lasers@.take(0), w0.bricks@, w0.particles@, self.particles@));
        }
        while i < total
            invariant
                0 <= i <= total,
                total == self.lasers@.len(),
                self.lasers@ == w0.lasers@,
                w0 == *old(self),
                w0.wf(),
                self.score >= w0.score,
                unbreakables(self.bricks@) == unbreakables(w0.bricks@),
                forall|k: int| 0 <= k < self.bricks@.len() ==> (#[trigger] self.bricks@[k]).wf(),
                kept@.len() <= i,
                forall|k: int| 0 <= k < kept@.len() ==> (#[trigger] kept@[k]).wf(),
                self.particles@.len() >= w0.particles@.len(),
                forall|k: int|
                    0 <= k < w0.particles@.len() ==> self.particles@[k] == w0.particles@[k],
                forall|k: int|
                    0 <= k < self.particles@.len() ==> (#[trigger] self.particles@[k]).wf(),
                ({
                    let pp = spec_laser_pass(w0.lasers@.take(i as int), w0.bricks@, w0.score);
                    &&& pp.lasers == kept@
                    &&& pp.bricks == self.bricks@
                    &&& pp.score == self.score
                }),
                laser_burst_rel(
                    w0.lasers@.take(i as int),
                    w0.bricks@,
                    w0.particles@,
                    self.particles@,
                ),
                *self == (World {
                    score: self.score,
                    bricks: self.bricks,
                    particles: self.particles,
                    ..w0
                }),
            decreases total - i,
        {
            let l = self.lasers[i];
            let ghost bricks_pre = self.bricks@;
            let ghost parts_pre = self.particles@;
            let r = laser_brick_scan(&mut self.bricks, l);
            match r.1 {
                Some(b) => {
                    let pts: u32 = match b.brick_type {
                        BrickType::Normal => 15,
                        BrickType::Hard => 30,
                        BrickType::Unbreakable => 0,
                    };
                    self.score = add_score(self.score, pts);
                    self.spawn_particles(b.pos);
                },
                None => {},
            }
            if !r.0 {
                kept.push(l);
            }
            proof {
                lemma_laser_scan_preserves_unbreakables(l, bricks_pre);
                lemma_laser_pass_snoc(w0.lasers@.take(i as int), w0.bricks@, w0.score, l);
                lemma_laser_burst_snoc(
                    w0.lasers@.take(i as int),
                    w0.bricks@,
                    w0.score,
                    w0.particles@,
                    parts_pre,
                    self.particles@,
                    l,
                );
                assert(w0.lasers@.take(i as int + 1) =~= w0.lasers@.take(i as int).push(l));
            }
            i += 1;
        }
        proof {
            assert(w0.lasers@.take(total as int) =~= w0.lasers@);
        }
        self.lasers = kept;
    }
}

/// What one collection pass leaves of the capsules, the effect tracker
/// and the ball store.
pub struct PickupOutcome {
    pub powerups: Seq<PowerUp>,
    pub effects: PowerUpEffects,
    pub balls: Seq<Ball>,
}

/// One collection pass over the capsules, in store order, against the
/// paddle box fixed at the start of the pass. A capsule overlapping the
/// paddle applies its effect and despawns: the modifiers compound under
/// their clamps, the timed effects arm, and MultiBall clones the single
/// live ball twice, rotated a quarter radian each way.
pub open spec fn spec_powerup_pass(
    caps: Seq<PowerUp>,
    paddle_x: int,
    width: int,
    effects: PowerUpEffects,
    balls: Seq<Ball>,
) -> PickupOutcome
    decreases caps.len(),
{
    if caps.len() == 0 {
        PickupOutcome { powerups: caps, effects, balls }
    } else {
        let u = caps[0];
        let rest = caps.drop_first();
        if spec_overlaps(
            u.pos,
            powerup_extent(),
            Vec2 { x: paddle_x as i64, y: PADDLE_Y },
            Vec2 { x: width as i64, y: PADDLE_HEIGHT },
        ) {
            let e2 = effects_after_pickup(effects, u.power_type);
            let b2 = if u.power_type is MultiBall && balls.len() == 1 {
                balls.push(
                    Ball { pos: balls[0].pos, vel: spec_rotate_vel(balls[0].vel, false) },
                ).push(Ball { pos: balls[0].pos, vel: spec_rotate_vel(balls[0].vel, true) })
            } else {
                balls
            };
            spec_powerup_pass(rest, paddle_x, width, e2, b2)
        } else {
            let o = spec_powerup_pass(rest, paddle_x, width, effects, balls);
            PickupOutcome { powerups: seq![u] + o.powerups, ..o }
        }
    }
}

/// Everything one power-up collection pass guarantees: with no paddle
/// a no-op; with a paddle the capsules, the effect tracker and the ball
/// store equal the deterministic collection pass over the stores it
/// started from, and nothing else changes.
pub open spec fn powerup_collision_rel(pre: World, post: World) -> bool {
    &&& (pre.paddle is None ==> post == pre)
    &&& post.powerups@.len() <= pre.powerups@.len()
    &&& post.balls@.len() >= pre.balls@.len()
    &&& (forall|k: int| 0 <= k < pre.balls@.len() ==> post.balls@[k] == pre.balls@[k])
    &&& (pre.paddle is Some ==> ({
        let o = spec_powerup_pass(
            pre.powerups@,
            pre.paddle->Some_0.pos.x as int,
            crate::units::scale_rate(
                PADDLE_WIDTH as int,
                pre.effects.paddle_size_modifier as int,
            ),
            pre.effects,
            pre.balls@,
        );
        &&& post.powerups@ == o.powerups
        &&& post.effects == o.effects
        &&& post.balls@ == o.balls
    }))
    &&& post == (World {
        effects: post.effects,
        powerups: post.powerups,
        balls: post.balls,
        ..pre
    })
}

impl World {
    /// Resolve power-up collection: a capsule overlapping the paddle
    /// applies its effect and despawns. Size and speed modifiers
    /// compound under their clamps; MultiBall clones the single live
    /// ball twice, rotated a quarter radian each way; the timed effects
    /// arm their flag and timer. With no paddle present the pass is a
    /// no-op.
    pub fn powerup_collision(&mut self)
        requires
            old(self).wf(),
        ensures
            final(self).wf(),
            powerup_collision_rel(*old(self), *final(self)),
    {
        let ghost w0 = *old(self);
        let paddle = match self.paddle {
            Some(p) => p,
            None => {
                return ;
            },
        };
        let width = crate::units::apply_rate(PADDLE_WIDTH, self.effects.paddle_size_modifier);
        let total = self.powerups.len();
        let mut kept: Vec<PowerUp> = Vec::new();
        let mut i: usize = 0;
        proof {
            assert(w0.powerups@.skip(0) =~= w0.powerups@);
            let o = spec_powerup_pass(
                w0.powerups@,
                paddle.pos.x as int,
                width as int,
                w0.effects,
                w0.balls@,
            );
            assert(kept@ + o.powerups =~= o.powerups);
        }
        while i < total
            invariant
                0 <= i <= total,
                total == self.powerups@.len(),
                self.powerups@ == w0.powerups@,
                w0 == *old(self),
                w0.wf(),
                w0.paddle is Some,
                paddle == w0.paddle->Some_0,
                self.effects.wf(),
                kept@.len() <= i,
                forall|k: int| 0 <= k < kept@.len() ==> (#[trigger] kept@[k]).wf(),
                self.balls@.len() >= w0.balls@.len(),
                forall|k: int| 0 <= k < w0.balls@.len() ==> self.balls@[k] == w0.balls@[k],
                forall|k: int| 0 <= k < self.balls@.len() ==> (#[trigger] self.balls@[k]).wf(),
                width == crate::units::scale_rate(
                    PADDLE_WIDTH as int,
                    w0.effects.paddle_size_modifier as int,
                ),
                ({
                    let o = spec_powerup_pass(
                        w0.powerups@,
                        paddle.pos.x as int,
                        width as int,
                        w0.effects,
                        w0.balls@,
                    );
                    let oi = spec_powerup_pass(
                        w0.powerups@.skip(i as int),
                        paddle.pos.x as int,
                        width as int,
                        self.effects,
                        self.balls@,
                    );
                    &&& o.powerups == kept@ + oi.powerups
                    &&& o.effects == oi.effects
                    &&& o.balls == oi.balls
                }),
                *self == (World {
                    effects: self.effects,
                    balls: self.balls,
                    ..w0
                }),
            decreases total - i,
        {
            let u = self.powerups[i];
            proof {
                assert(w0.powerups@.skip(i as int)[0] == w0.powerups@[i as int]);
                assert(w0.powerups@.skip(i as int).drop_first() =~= w0.powerups@.skip(
                    i as int + 1,
                ));
            }
            match crate::geom::collide(
                u.pos,
                Vec2 { x: POWERUP_WIDTH, y: POWERUP_HEIGHT },
                Vec2 { x: paddle.pos.x, y: PADDLE_Y },
                Vec2 { x: width, y: PADDLE_HEIGHT },
            ) {
                Some(_) => {
                    match u.power_type {
                        PowerUpType::PaddleExpand => {
                            let m = self.effects.paddle_size_modifier;
                            proof {
                                crate::effects::lemma_paddle_pickup_bounded(m as int, true);
                            }
                            let grown = (m * 1500) / 1000;
                            self.effects.paddle_size_modifier = if grown > 2500 {
                                2500
                            } else {
                                grown
                            };
                        },
                        PowerUpType::PaddleShrink => {
                            let m = self.effects.paddle_size_modifier;
                            proof {
                                crate::effects::lemma_paddle_pickup_bounded(m as int, false);
                            }
                            let shrunk = (m * 700) / 1000;
                            self.effects.paddle_size_modifier = if shrunk < 500 {
                                500
                            } else {
                                shrunk
                            };
                        },
                        PowerUpType::BallSpeedUp => {
                            let m = self.effects.ball_speed_modifier;
                            proof {
                                crate::effects::lemma_speed_pickup_bounded(m as int, true);
                            }
                            let faster = (m * 1300) / 1000;
                            self.effects.ball_speed_modifier = if faster > 2000 {
                                2000
                            } else {
                                faster
                            };
                        },
                        PowerUpType::BallSpeedDown => {
                            let m = self.effects.ball_speed_modifier;
                            proof {
                                crate::effects::lemma_speed_pickup_bounded(m as int, false);
                            }
                            let slower = (m * 700) / 1000;
                            self.effects.ball_speed_modifier = if slower < 500 {
                                500
                            } else {
                                slower
                            };
                        },
                        PowerUpType::MultiBall => {
                            if self.balls.len() == 1 {
                                let b = self.balls[0];
                                self.balls.push(
                                    Ball { pos: b.pos, vel: rotate_vel(b.vel, false) },
                                );
                                self.balls.push(
                                    Ball { pos: b.pos, vel: rotate_vel(b.vel, true) },
                                );
                            }
                        },
                        PowerUpType::PenetratingBall => {
                            self.effects.penetrating_ball = true;
                            self.effects.penetrating_timer_ms = 10_000;
                        },
                        PowerUpType::LaserGun => {
                            self.effects.has_laser = true;
                            self.effects.laser_timer_ms = 15_000;
                        },
                    }
                },
                None => {
                    let ghost kept0 = kept@;
                    let ghost rest = spec_powerup_pass(
                        w0.powerups@.skip(i as int + 1),
                        paddle.pos.x as int,
                        width as int,
                        self.effects,
                        self.balls@,
                    );
                    kept.push(u);
                    proof {
                        assert(kept@ =~= kept0 + seq![u]);
                        assert(kept0 + (seq![u] + rest.powerups) =~= (kept0 + seq![u])
                            + rest.powerups);
                    }
                },
            }
            i += 1;
        }
        proof {
            assert(w0.powerups@.skip(total as int) =~= Seq::<PowerUp>::empty());
            let o = spec_powerup_pass(
                w0.powerups@,
                paddle.pos.x as int,
                width as int,
                w0.effects,
                w0.balls@,
            );
            assert(kept@ + Seq::<PowerUp>::empty() =~= kept@);
        }
        self.powerups = kept;
    }
}

} // verus!
