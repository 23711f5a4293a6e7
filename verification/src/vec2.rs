//! Two-dimensional fixed-point vectors and the geometry helpers of the
//! simulation: lengths, distances, segment normals and the point-on-segment
//! test.

use vstd::prelude::*;
use crate::fixedpoint::{
    SCALE, abs_val, div_tz, div_trunc, is_sqrt, isqrt, lemma_mul_bound, lemma_sqrt_bound,
    lemma_sqrt_floor_is_sqrt, lemma_sqrt_pos, lemma_square_nonneg, sqrt_floor,
};

verus! {

/// Largest coordinate magnitude the geometry accepts, in fixed-point units
/// (about a thousand pixels): keeps every intermediate product inside `i64`.
pub const COORD_LIMIT: i64 = 0x100000;

/// Slack allowed by the point-on-segment test, in fixed-point units.
pub const COLLISION_EPSILON: i64 = 50;

/// A two-dimensional vector in fixed-point units.
#[derive(Clone, Copy, Debug, PartialEq, Eq, Structural)]
pub struct Vec2 {
    pub x: i64,
    pub y: i64,
}

impl Vec2 {
    /// Both coordinates are within `COORD_LIMIT`.
    pub open spec fn in_range(self) -> bool {
        &&& -COORD_LIMIT <= self.x <= COORD_LIMIT
        &&& -COORD_LIMIT <= self.y <= COORD_LIMIT
    }

    /// The squared length of the vector.
    pub open spec fn len_sq(self) -> int {
        self.x * self.x + self.y * self.y
    }
}

/// The length of `v`, rounded down.
pub open spec fn vec_len_spec(v: Vec2) -> int {
    sqrt_floor(v.len_sq() as nat) as int
}

/// The distance between `p1` and `p2`, rounded down.
pub open spec fn dist_spec(p1: Vec2, p2: Vec2) -> int {
    sqrt_floor(((p2.x - p1.x) * (p2.x - p1.x) + (p2.y - p1.y) * (p2.y - p1.y)) as nat) as int
}

/// `p` lies on the segment from `l0` to `l1`, up to `COLLISION_EPSILON`:
/// its distances to the two endpoints sum to the segment length.
pub open spec fn on_segment_spec(p: Vec2, l0: Vec2, l1: Vec2) -> bool {
    &&& dist_spec(p, l0) + dist_spec(p, l1) >= dist_spec(l0, l1) - COLLISION_EPSILON
    &&& dist_spec(p, l0) + dist_spec(p, l1) <= dist_spec(l0, l1) + COLLISION_EPSILON
}

/// The left-hand perpendicular of `p1 - p2`, before normalisation.
pub open spec fn raw_normal_spec(p1: Vec2, p2: Vec2) -> (int, int) {
    (p2.y - p1.y, p1.x - p2.x)
}

/// The outward normal of the segment from `p1` to `p2`, scaled to length
/// `SCALE` and rounded toward zero in each coordinate.
pub open spec fn normal_spec(p1: Vec2, p2: Vec2) -> (int, int) {
    let (ux, uy) = raw_normal_spec(p1, p2);
    let len = sqrt_floor((ux * ux + uy * uy) as nat) as int;
    (div_tz(ux * SCALE as int, len), div_tz(uy * SCALE as int, len))
}

/// The length of `v`, rounded down.
pub fn vec_len(v: Vec2) -> (r: i64)
    requires
        v.in_range(),
    ensures
        r as int == vec_len_spec(v),
        0 <= r <= 0x200000,
{
    proof {
        lemma_mul_bound(v.x as int, v.x as int, COORD_LIMIT as int, COORD_LIMIT as int);
        lemma_mul_bound(v.y as int, v.y as int, COORD_LIMIT as int, COORD_LIMIT as int);
        lemma_square_nonneg(v.x as int);
        lemma_square_nonneg(v.y as int);
    }
    let xx: i64 = v.x * v.x;
    let yy: i64 = v.y * v.y;
    let s: u64 = (xx as u64) + (yy as u64);
    let r: u64 = isqrt(s);
    proof {
        assert((0x200000int) * (0x200000int) == 0x40000000000int);
        lemma_sqrt_bound(s as int, r as int, 0x200000int);
    }
    r as i64
}

/// The distance between `p1` and `p2`, rounded down.
pub fn distance(p1: Vec2, p2: Vec2) -> (r: i64)
    requires
        p1.in_range(),
        p2.in_range(),
    ensures
        r as int == dist_spec(p1, p2),
        0 <= r <= 0x400000,
{
    let dx: i64 = p2.x - p1.x;
    let dy: i64 = p2.y - p1.y;
    proof {
        lemma_mul_bound(dx as int, dx as int, 2 * COORD_LIMIT as int, 2 * COORD_LIMIT as int);
        lemma_mul_bound(dy as int, dy as int, 2 * COORD_LIMIT as int, 2 * COORD_LIMIT as int);
        lemma_square_nonneg(dx as int);
        lemma_square_nonneg(dy as int);
    }
    let xx: i64 = dx * dx;
    let yy: i64 = dy * dy;
    let s: u64 = (xx as u64) + (yy as u64);
    let r: u64 = isqrt(s);
    proof {
        assert((0x400000int) * (0x400000int) == 0x100000000000int);
        lemma_sqrt_bound(s as int, r as int, 0x400000int);
    }
    r as i64
}

/// Whether `point` lies on the segment from `l0` to `l1`, up to the fixed
/// slack `COLLISION_EPSILON`.
pub fn collision_point_line(point: Vec2, l0: Vec2, l1: Vec2) -> (r: bool)
    requires
        point.in_range(),
        l0.in_range(),
        l1.in_range(),
    ensures
        r == on_segment_spec(point, l0, l1),
{
    let d0: i64 = distance(point, l0);
    let d1: i64 = distance(point, l1);
    let dl: i64 = distance(l0, l1);
    d0 + d1 >= dl - COLLISION_EPSILON && d0 + d1 <= dl + COLLISION_EPSILON
}

/// The outward normal of the segment from `p1` to `p2`, scaled so that a
/// unit normal has length `SCALE`; each coordinate stays within `SCALE`.
pub fn create_normal(p1: Vec2, p2: Vec2) -> (r: Vec2)
    requires
        p1.in_range(),
        p2.in_range(),
        p1 != p2,
    ensures
        (r.x as int, r.y as int) == normal_spec(p1, p2),
        -SCALE <= r.x <= SCALE,
        -SCALE <= r.y <= SCALE,
{
    let ux: i64 = p2.y - p1.y;
    let uy: i64 = p1.x - p2.x;
    proof {
        lemma_mul_bound(ux as int, ux as int, 2 * COORD_LIMIT as int, 2 * COORD_LIMIT as int);
        lemma_mul_bound(uy as int, uy as int, 2 * COORD_LIMIT as int, 2 * COORD_LIMIT as int);
        lemma_square_nonneg(ux as int);
        lemma_square_nonneg(uy as int);
        crate::fixedpoint::lemma_square_pos(ux as int);
        crate::fixedpoint::lemma_square_pos(uy as int);
    }
    let xx: i64 = ux * ux;
    let yy: i64 = uy * uy;
    let s: u64 = (xx as u64) + (yy as u64);
    let len: u64 = isqrt(s);
    proof {
        lemma_sqrt_pos(s as int, len as int);
        assert((0x400000int) * (0x400000int) == 0x100000000000int);
        lemma_sqrt_bound(s as int, len as int, 0x400000int);
        lemma_mul_bound(ux as int, SCALE as int, 2 * COORD_LIMIT as int, SCALE as int);
        lemma_mul_bound(uy as int, SCALE as int, 2 * COORD_LIMIT as int, SCALE as int);
        crate::fixedpoint::lemma_abs_square(ux as int);
        crate::fixedpoint::lemma_abs_square(uy as int);
        crate::fixedpoint::lemma_sqrt_dominates(s as int, len as int, abs_val(ux as int));
        crate::fixedpoint::lemma_sqrt_dominates(s as int, len as int, abs_val(uy as int));
        crate::fixedpoint::lemma_scaled_div_bound(ux as int, len as int, SCALE as int);
        crate::fixedpoint::lemma_scaled_div_bound(uy as int, len as int, SCALE as int);
    }
    let nx: i64 = div_trunc(ux * SCALE, len as i64);
    let ny: i64 = div_trunc(uy * SCALE, len as i64);
    Vec2 { x: nx, y: ny }
}

} // verus!
