use vstd::prelude::*;
use crate::units::{POS_CAP, SIZE_CAP};

verus! {

/// A 2D vector in milli-units.
#[derive(Clone, Copy, Debug, PartialEq, Eq, Structural)]
pub struct Vec2 {
    pub x: i64,
    pub y: i64,
}

/// The side of the second rectangle that the first rectangle most
/// shallowly penetrates.
#[derive(Clone, Copy, Debug, PartialEq, Eq, Structural)]
pub enum Collision {
    Left,
    Right,
    Top,
    Bottom,
}

/// Coordinates inside the simulated space.
pub open spec fn in_space(p: Vec2) -> bool {
    &&& -POS_CAP <= p.x <= POS_CAP
    &&& -POS_CAP <= p.y <= POS_CAP
}

/// A valid rectangle extent: non-negative and bounded.
pub open spec fn size_ok(s: Vec2) -> bool {
    &&& 0 <= s.x <= SIZE_CAP
    &&& 0 <= s.y <= SIZE_CAP
}

/// One integration step of a position by a velocity over `dt`
/// milliseconds, coordinate by coordinate.
pub open spec fn stepped(p: Vec2, v: Vec2, dt: int) -> Vec2 {
    Vec2 {
        x: crate::units::step_pos(p.x as int, v.x as int, dt) as i64,
        y: crate::units::step_pos(p.y as int, v.y as int, dt) as i64,
    }
}

/// Exec mirror of `stepped`.
pub fn step_vec(p: Vec2, v: Vec2, dt: i64) -> (r: Vec2)
    requires
        in_space(p),
        -crate::units::EFF_VEL_CAP <= v.x <= crate::units::EFF_VEL_CAP,
        -crate::units::EFF_VEL_CAP <= v.y <= crate::units::EFF_VEL_CAP,
        0 <= dt <= crate::units::DT_CAP_MS,
    ensures
        r == stepped(p, v, dt as int),
        in_space(r),
{
    Vec2 {
        x: crate::units::step_coord(p.x, v.x, dt),
        y: crate::units::step_coord(p.y, v.y, dt),
    }
}

/// Strict overlap of two axis-aligned rectangles given by center and full
/// extent.
pub open spec fn spec_overlaps(a_pos: Vec2, a_size: Vec2, b_pos: Vec2, b_size: Vec2) -> bool {
    &&& a_pos.x - a_size.x / 2 < b_pos.x + b_size.x / 2
    &&& a_pos.x + a_size.x / 2 > b_pos.x - b_size.x / 2
    &&& a_pos.y - a_size.y / 2 < b_pos.y + b_size.y / 2
    &&& a_pos.y + a_size.y / 2 > b_pos.y - b_size.y / 2
}

/// Overlap test plus minimum-penetration side resolution: `None` when the
/// rectangles do not overlap, otherwise the side of the second rectangle
/// whose directional overlap depth is smallest, ties resolved in the fixed
/// order Left, Right, Top, Bottom.
pub open spec fn spec_collide(a_pos: Vec2, a_size: Vec2, b_pos: Vec2, b_size: Vec2) -> Option<
    Collision,
> {
    if !spec_overlaps(a_pos, a_size, b_pos, b_size) {
        None
    } else {
        let left = b_pos.x + b_size.x / 2 - (a_pos.x - a_size.x / 2);
        let right = a_pos.x + a_size.x / 2 - (b_pos.x - b_size.x / 2);
        let top = b_pos.y + b_size.y / 2 - (a_pos.y - a_size.y / 2);
        let bottom = a_pos.y + a_size.y / 2 - (b_pos.y - b_size.y / 2);
        let m = vstd::math::min(vstd::math::min(vstd::math::min(left, right), top), bottom);
        if m == left {
            Some(Collision::Left)
        } else if m == right {
            Some(Collision::Right)
        } else if m == top {
            Some(Collision::Top)
        } else {
            Some(Collision::Bottom)
        }
    }
}

/// Report how the first rectangle overlaps the second, as the side of the
/// second rectangle with the smallest overlap depth.
pub fn collide(a_pos: Vec2, a_size: Vec2, b_pos: Vec2, b_size: Vec2) -> (r: Option<Collision>)
    requires
        in_space(a_pos),
        in_space(b_pos),
        size_ok(a_size),
        size_ok(b_size),
    ensures
        r == spec_collide(a_pos, a_size, b_pos, b_size),
        r is Some <==> spec_overlaps(a_pos, a_size, b_pos, b_size),
{
    let a_min_x: i64 = a_pos.x - a_size.x / 2;
    let a_max_x: i64 = a_pos.x + a_size.x / 2;
    let a_min_y: i64 = a_pos.y - a_size.y / 2;
    let a_max_y: i64 = a_pos.y + a_size.y / 2;
    let b_min_x: i64 = b_pos.x - b_size.x / 2;
    let b_max_x: i64 = b_pos.x + b_size.x / 2;
    let b_min_y: i64 = b_pos.y - b_size.y / 2;
    let b_max_y: i64 = b_pos.y + b_size.y / 2;

    if a_min_x < b_max_x && a_max_x > b_min_x && a_min_y < b_max_y && a_max_y > b_min_y {
        let left: i64 = b_max_x - a_min_x;
        let right: i64 = a_max_x - b_min_x;
        let top: i64 = b_max_y - a_min_y;
        let bottom: i64 = a_max_y - b_min_y;

        let mut m: i64 = left;
        if right < m {
            m = right;
        }
        if top < m {
            m = top;
        }
        if bottom < m {
            m = bottom;
        }

        if m == left {
            Some(Collision::Left)
        } else if m == right {
            Some(Collision::Right)
        } else if m == top {
            Some(Collision::Top)
        } else {
            Some(Collision::Bottom)
        }
    } else {
        None
    }
}

} // verus!
