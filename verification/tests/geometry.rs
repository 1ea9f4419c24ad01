use breakout_core::geom::{collide, step_vec, Collision, Vec2};
use breakout_core::units::{apply_rate, compose_rates, step_coord};

#[test]
fn collide_reports_shallowest_side() {
    // A ball-sized box sitting just above a paddle-sized box penetrates
    // its top side least.
    let r = collide(
        Vec2 { x: 0, y: 5_000 },
        Vec2 { x: 20_000, y: 20_000 },
        Vec2 { x: 0, y: 0 },
        Vec2 { x: 120_000, y: 20_000 },
    );
    assert!(matches!(r, Some(Collision::Top)));
}

#[test]
fn collide_bottom_side_from_below() {
    let r = collide(
        Vec2 { x: 0, y: -20_000 },
        Vec2 { x: 20_000, y: 20_000 },
        Vec2 { x: 0, y: 0 },
        Vec2 { x: 75_000, y: 30_000 },
    );
    assert!(matches!(r, Some(Collision::Bottom)));
}

#[test]
fn collide_tie_resolves_to_left() {
    // Concentric squares give four equal depths; the fixed order picks
    // Left.
    let r = collide(
        Vec2 { x: 0, y: 0 },
        Vec2 { x: 20_000, y: 20_000 },
        Vec2 { x: 0, y: 0 },
        Vec2 { x: 40_000, y: 40_000 },
    );
    assert!(matches!(r, Some(Collision::Left)));
}

#[test]
fn collide_none_when_apart() {
    let r = collide(
        Vec2 { x: 200_000, y: 0 },
        Vec2 { x: 20_000, y: 20_000 },
        Vec2 { x: 0, y: 0 },
        Vec2 { x: 75_000, y: 30_000 },
    );
    assert!(r.is_none());
}

#[test]
fn collide_touching_edges_do_not_overlap() {
    // Strict inequalities: boxes sharing an edge do not collide.
    let r = collide(
        Vec2 { x: 47_500, y: 0 },
        Vec2 { x: 20_000, y: 20_000 },
        Vec2 { x: 0, y: 0 },
        Vec2 { x: 75_000, y: 30_000 },
    );
    assert!(r.is_none());
}

#[test]
fn apply_rate_scales_in_thousandths() {
    assert_eq!(apply_rate(400_000, 707), 282_800);
    assert_eq!(apply_rate(1000, 1500), 1500);
    assert_eq!(apply_rate(-400_000, 750), -300_000);
}

#[test]
fn compose_rates_applies_both_modifiers() {
    // 100 units/s at 1.3x then 0.8x.
    assert_eq!(compose_rates(100_000, 1300, 800), 104_000);
}

#[test]
fn step_coord_integrates_and_truncates_toward_zero() {
    assert_eq!(step_coord(1_000, 400_000, 100), 41_000);
    assert_eq!(step_coord(0, -1_500, 1), -1);
    assert_eq!(step_coord(0, 1_500, 1), 1);
}

#[test]
fn step_vec_moves_both_coordinates() {
    let p = step_vec(
        Vec2 { x: 1_000, y: -2_000 },
        Vec2 { x: 10_000, y: -20_000 },
        500,
    );
    assert_eq!(p.x, 6_000);
    assert_eq!(p.y, -12_000);
}
