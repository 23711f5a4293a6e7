//! The player's state and the frame update: integration of position,
//! rotation and velocity, the slope-collision test of the two lower corners
//! against the first ground segment, and the landing response.

use vstd::prelude::*;
use crate::fixedpoint::{
    SCALE, SQRT2_FIXED, abs_val, div_trunc, div_tz, isqrt, lemma_div_lower, lemma_div_tz_bound,
    lemma_mul_bound, lemma_offset_bound, lemma_sqrt_bound, lemma_sqrt_pos, lemma_square_nonneg,
    lemma_square_pos, sqrt_floor,
};
use crate::vec2::{COORD_LIMIT, Vec2, vec_len, vec_len_spec};

verus! {

/// Upward speed gained by a jump, in fixed-point units per second.
pub const JUMP_IMPULSE: i64 = 50000;

/// Sideways speed gained per frame a direction key is held, in fixed-point
/// units per second.
pub const WALK_IMPULSE: i64 = 100;

/// Downward acceleration while airborne, in pixels per second squared.
pub const GRAVITY: i64 = 10;

/// The ground: a polyline of vertices with one outward normal per segment.
pub struct Ground {
    pub vertices: Vec<Vec2>,
    pub normals: Vec<Vec2>,
}

impl Ground {
    /// Vertical rise of the first segment.
    pub open spec fn seg_a(self) -> int {
        self.vertices@[1].y - self.vertices@[0].y
    }

    /// Horizontal run of the first segment.
    pub open spec fn seg_b(self) -> int {
        self.vertices@[1].x - self.vertices@[0].x
    }

    /// Constant term of the first segment's line equation.
    pub open spec fn seg_c(self) -> int {
        self.vertices@[0].y * self.seg_b()
    }

    /// Length of the first segment's direction vector, rounded down.
    pub open spec fn seg_den(self) -> int {
        sqrt_floor((self.seg_a() * self.seg_a() + self.seg_b() * self.seg_b()) as nat) as int
    }

    /// Signed offset of a point from the first segment's line, in
    /// fixed-point units; zero or less means at or below the line.
    pub open spec fn line_offset(self, px: int, py: int) -> int {
        div_tz(self.seg_a() * px - self.seg_b() * py + self.seg_c(), self.seg_den())
    }

    /// Sine of the first segment's slope: the cross product of its outward
    /// normal with the horizontal unit vector.
    pub open spec fn seg_sin(self) -> int {
        -self.normals@[0].y
    }

    /// The first segment exists, is not degenerate, stays within the
    /// coordinate range, and its normal is a usable unit normal.
    pub open spec fn wf(self) -> bool {
        &&& self.vertices@.len() >= 2
        &&& self.normals@.len() >= 1
        &&& self.vertices@[0].in_range()
        &&& self.vertices@[1].in_range()
        &&& self.vertices@[0] != self.vertices@[1]
        &&& self.normals@[0].y != 0
        &&& -SCALE <= self.normals@[0].y <= SCALE
    }
}

/// The player: a square of side `size` with position, rotation, linear and
/// angular velocity, and a flag that says it rests on the ground.
pub struct Player {
    pub pos: Vec2,
    pub rotation: i64,
    pub size: i64,
    pub velocity: Vec2,
    pub ang_velocity: i64,
    pub grounded: bool,
}

/// Position advanced by one step of the velocity, horizontally.
pub open spec fn stepped_x(p: Player, dt: int) -> int {
    p.pos.x + div_tz(p.velocity.x * dt, SCALE as int)
}

/// Position advanced by one step of the velocity, vertically.
pub open spec fn stepped_y(p: Player, dt: int) -> int {
    p.pos.y + div_tz(p.velocity.y * dt, SCALE as int)
}

/// Rotation advanced by one step of the angular velocity.
pub open spec fn stepped_rot(p: Player, dt: int) -> int {
    p.rotation + div_tz(p.ang_velocity * dt, SCALE as int)
}

/// Half the player's side length, rounded toward zero.
pub open spec fn half_size(p: Player) -> int {
    div_tz(p.size as int, 2)
}

/// World x of a lower corner after the step: the local corner rotated by
/// the player's rotation and translated to the stepped position.
pub open spec fn corner_x(p: Player, dt: int, sin_rot: int, cos_rot: int, left: bool) -> int {
    let lx = if left {
        -half_size(p)
    } else {
        half_size(p)
    };
    stepped_x(p, dt) + div_tz(cos_rot * lx - sin_rot * half_size(p), SCALE as int)
}

/// World y of a lower corner after the step.
pub open spec fn corner_y(p: Player, dt: int, sin_rot: int, cos_rot: int, left: bool) -> int {
    let lx = if left {
        -half_size(p)
    } else {
        half_size(p)
    };
    stepped_y(p, dt) + div_tz(sin_rot * lx + cos_rot * half_size(p), SCALE as int)
}

/// Offset of the left lower corner from the ground line.
pub open spec fn offset_left(p: Player, g: Ground, dt: int, sin_rot: int, cos_rot: int) -> int {
    g.line_offset(corner_x(p, dt, sin_rot, cos_rot, true), corner_y(p, dt, sin_rot, cos_rot, true))
}

/// Offset of the right lower corner from the ground line.
pub open spec fn offset_right(p: Player, g: Ground, dt: int, sin_rot: int, cos_rot: int) -> int {
    g.line_offset(
        corner_x(p, dt, sin_rot, cos_rot, false),
        corner_y(p, dt, sin_rot, cos_rot, false),
    )
}

/// The left corner touches the ground: only checked while airborne.
pub open spec fn hits_left(p: Player, g: Ground, dt: int, sin_rot: int, cos_rot: int) -> bool {
    !p.grounded && offset_left(p, g, dt, sin_rot, cos_rot) <= 0
}

/// The right corner touches the ground, after the left corner did not.
pub open spec fn hits_right(p: Player, g: Ground, dt: int, sin_rot: int, cos_rot: int) -> bool {
    !hits_left(p, g, dt, sin_rot, cos_rot) && offset_right(p, g, dt, sin_rot, cos_rot) <= 0
}

/// The step ends with the player on the ground.
pub open spec fn lands(p: Player, g: Ground, dt: int, sin_rot: int, cos_rot: int) -> bool {
    hits_left(p, g, dt, sin_rot, cos_rot) || hits_right(p, g, dt, sin_rot, cos_rot)
}

/// Vertical correction applied on landing: the touching corner's offset,
/// divided by the sine of the ground slope.
pub open spec fn landing_lift(p: Player, g: Ground, dt: int, sin_rot: int, cos_rot: int) -> int {
    let d = if hits_left(p, g, dt, sin_rot, cos_rot) {
        offset_left(p, g, dt, sin_rot, cos_rot)
    } else {
        offset_right(p, g, dt, sin_rot, cos_rot)
    };
    div_tz(d * SCALE as int, g.seg_sin())
}

/// Angular speed gained on landing: a tenth of the ratio of the player's
/// speed to its diagonal.
pub open spec fn spin_impulse(p: Player) -> int {
    div_tz(
        div_tz(vec_len_spec(p.velocity) * SCALE as int, div_tz(p.size * SQRT2_FIXED as int, SCALE as int)),
        10,
    )
}

impl Player {
    /// All fields are inside the ranges the frame update accepts.
    pub open spec fn wf(self) -> bool {
        &&& self.pos.in_range()
        &&& self.velocity.in_range()
        &&& -COORD_LIMIT <= self.rotation <= COORD_LIMIT
        &&& -COORD_LIMIT <= self.ang_velocity <= COORD_LIMIT
        &&& 1 <= self.size <= COORD_LIMIT
    }

    /// A player of side `size` resting at `pos`: no motion, airborne.
    pub fn from_pos(pos: Vec2, size: i64) -> (p: Player)
        ensures
            p.pos == pos,
            p.rotation == 0,
            p.size == size,
            p.velocity == (Vec2 { x: 0, y: 0 }),
            p.ang_velocity == 0,
            !p.grounded,
    {
        Player {
            pos,
            rotation: 0,
            size,
            velocity: Vec2 { x: 0, y: 0 },
            ang_velocity: 0,
            grounded: false,
        }
    }

    /// While grounded, gain `JUMP_IMPULSE` of upward speed and leave the
    /// ground; in the air, do nothing.
    pub fn jump(&mut self)
        requires
            old(self).velocity.y >= i64::MIN + JUMP_IMPULSE,
        ensures
            final(self).pos == old(self).pos,
            final(self).rotation == old(self).rotation,
            final(self).size == old(self).size,
            final(self).velocity.x == old(self).velocity.x,
            final(self).ang_velocity == old(self).ang_velocity,
            old(self).grounded ==> final(self).velocity.y == old(self).velocity.y - JUMP_IMPULSE
                && !final(self).grounded,
            !old(self).grounded ==> final(self).velocity.y == old(self).velocity.y
                && !final(self).grounded,
    {
        if self.grounded {
            self.velocity.y = self.velocity.y - JUMP_IMPULSE;
            self.grounded = false;
        }
    }

    /// Apply one frame of input: an up press jumps, a right or left press
    /// nudges the sideways speed by `WALK_IMPULSE`.
    pub fn handle_input(&mut self, up: bool, right: bool, left: bool)
        requires
            old(self).velocity.y >= i64::MIN + JUMP_IMPULSE,
            old(self).velocity.x <= i64::MAX - WALK_IMPULSE,
            old(self).velocity.x >= i64::MIN + WALK_IMPULSE,
        ensures
            final(self).pos == old(self).pos,
            final(self).rotation == old(self).rotation,
            final(self).size == old(self).size,
            final(self).ang_velocity == old(self).ang_velocity,
            final(self).velocity.x == old(self).velocity.x + (if right {
                WALK_IMPULSE as int
            } else {
                0
            }) - (if left {
                WALK_IMPULSE as int
            } else {
                0
            }),
            up && old(self).grounded ==> final(self).velocity.y == old(self).velocity.y
                - JUMP_IMPULSE && !final(self).grounded,
            !(up && old(self).grounded) ==> final(self).velocity.y == old(self).velocity.y
                && final(self).grounded == old(self).grounded,
    {
        if up {
            self.jump();
        }
        if right {
            self.velocity.x = self.velocity.x + WALK_IMPULSE;
        }
        if left {
            self.velocity.x = self.velocity.x - WALK_IMPULSE;
        }
    }

    /// One frame of simulation: move by the velocities, test the two lower
    /// corners against the first ground segment, and either land (snap to
    /// the line, stop falling, start spinning) or stay airborne and fall.
    /// `sin_rot` and `cos_rot` are the sine and cosine of the player's
    /// rotation after the step, in `SCALE` units.
    pub fn update(&mut self, ground: &Ground, dt: i64, sin_rot: i64, cos_rot: i64)
        requires
            old(self).wf(),
            ground.wf(),
            0 <= dt <= SCALE,
            -SCALE <= sin_rot <= SCALE,
            -SCALE <= cos_rot <= SCALE,
        ensures
            final(self).size == old(self).size,
            final(self).velocity.x == old(self).velocity.x,
            final(self).pos.x as int == stepped_x(*old(self), dt as int),
            final(self).rotation as int == stepped_rot(*old(self), dt as int),
            final(self).grounded == lands(*old(self), *ground, dt as int, sin_rot as int, cos_rot as int),
            lands(*old(self), *ground, dt as int, sin_rot as int, cos_rot as int)
                ==> final(self).pos.y as int == stepped_y(*old(self), dt as int)
                    + landing_lift(*old(self), *ground, dt as int, sin_rot as int, cos_rot as int),
            lands(*old(self), *ground, dt as int, sin_rot as int, cos_rot as int)
                ==> final(self).velocity.y == 0,
            lands(*old(self), *ground, dt as int, sin_rot as int, cos_rot as int)
                ==> final(self).ang_velocity as int == old(self).ang_velocity + (if hits_left(
                *old(self),
                *ground,
                dt as int,
                sin_rot as int,
                cos_rot as int,
            ) {
                spin_impulse(*old(self))
            } else {
                -spin_impulse(*old(self))
            }),
            !lands(*old(self), *ground, dt as int, sin_rot as int, cos_rot as int)
                ==> final(self).pos.y as int == stepped_y(*old(self), dt as int),
            !lands(*old(self), *ground, dt as int, sin_rot as int, cos_rot as int)
                ==> final(self).velocity.y as int == old(self).velocity.y + GRAVITY * dt,
            !lands(*old(self), *ground, dt as int, sin_rot as int, cos_rot as int)
                ==> final(self).ang_velocity == old(self).ang_velocity,
    {
        proof {
            lemma_mul_bound(self.velocity.x as int, dt as int, COORD_LIMIT as int, SCALE as int);
            lemma_mul_bound(self.velocity.y as int, dt as int, COORD_LIMIT as int, SCALE as int);
            lemma_mul_bound(self.ang_velocity as int, dt as int, COORD_LIMIT as int, SCALE as int);
        }
        let dx: i64 = div_trunc(self.velocity.x * dt, SCALE);
        let dy: i64 = div_trunc(self.velocity.y * dt, SCALE);
        let dr: i64 = div_trunc(self.ang_velocity * dt, SCALE);
        self.pos.x = self.pos.x + dx;
        self.pos.y = self.pos.y + dy;
        self.rotation = self.rotation + dr;

        let half: i64 = div_trunc(self.size, 2);
        let neg_half: i64 = -half;
        proof {
            lemma_mul_bound(cos_rot as int, half as int, SCALE as int, COORD_LIMIT as int);
            lemma_mul_bound(sin_rot as int, half as int, SCALE as int, COORD_LIMIT as int);
            lemma_mul_bound(cos_rot as int, neg_half as int, SCALE as int, COORD_LIMIT as int);
            lemma_mul_bound(sin_rot as int, neg_half as int, SCALE as int, COORD_LIMIT as int);
        }
        let c1x: i64 = self.pos.x + div_trunc(cos_rot * neg_half - sin_rot * half, SCALE);
        let c1y: i64 = self.pos.y + div_trunc(sin_rot * neg_half + cos_rot * half, SCALE);
        let c2x: i64 = self.pos.x + div_trunc(cos_rot * half - sin_rot * half, SCALE);
        let c2y: i64 = self.pos.y + div_trunc(sin_rot * half + cos_rot * half, SCALE);

        let v0: Vec2 = ground.vertices[0];
        let v1: Vec2 = ground.vertices[1];
        let a: i64 = v1.y - v0.y;
        let b: i64 = v1.x - v0.x;
        proof {
            lemma_mul_bound(v0.y as int, b as int, COORD_LIMIT as int, 2 * COORD_LIMIT as int);
            lemma_mul_bound(a as int, a as int, 2 * COORD_LIMIT as int, 2 * COORD_LIMIT as int);
            lemma_mul_bound(b as int, b as int, 2 * COORD_LIMIT as int, 2 * COORD_LIMIT as int);
            lemma_square_nonneg(a as int);
            lemma_square_nonneg(b as int);
            lemma_square_pos(a as int);
            lemma_square_pos(b as int);
        }
        let cc: i64 = v0.y * b;
        let sq: u64 = ((a * a) as u64) + ((b * b) as u64);
        let den64: u64 = isqrt(sq);
        proof {
            lemma_sqrt_pos(sq as int, den64 as int);
            assert((0x400000int) * (0x400000int) == 0x100000000000int);
            lemma_sqrt_bound(sq as int, den64 as int, 0x400000int);
            crate::fixedpoint::lemma_abs_square(a as int);
            crate::fixedpoint::lemma_abs_square(b as int);
            crate::fixedpoint::lemma_sqrt_dominates(sq as int, den64 as int, abs_val(a as int));
            crate::fixedpoint::lemma_sqrt_dominates(sq as int, den64 as int, abs_val(b as int));
        }
        let den: i64 = den64 as i64;
        proof {
            lemma_mul_bound(a as int, c1x as int, 0x200000int, 0x200000000int);
            lemma_mul_bound(b as int, c1y as int, 0x200000int, 0x200000000int);
            lemma_mul_bound(a as int, c2x as int, 0x200000int, 0x200000000int);
            lemma_mul_bound(b as int, c2y as int, 0x200000int, 0x200000000int);
            lemma_offset_bound(
                a as int,
                b as int,
                v0.y as int,
                c1x as int,
                c1y as int,
                den as int,
                0x200000000int,
            );
            lemma_offset_bound(
                a as int,
                b as int,
                v0.y as int,
                c2x as int,
                c2y as int,
                den as int,
                0x200000000int,
            );
        }
        let num1: i64 = a * c1x - b * c1y + cc;
        let num2: i64 = a * c2x - b * c2y + cc;
        proof {
            lemma_div_tz_bound(num1 as int, den as int, 3 * 0x200000000int);
            lemma_div_tz_bound(num2 as int, den as int, 3 * 0x200000000int);
        }
        let d1: i64 = div_trunc(num1, den);
        let d2: i64 = div_trunc(num2, den);

        let sin_seg: i64 = -ground.normals[0].y;

        if !self.grounded && d1 <= 0 {
            self.land(d1, sin_seg, true);
        } else if d2 <= 0 {
            self.land(d2, sin_seg, false);
        } else {
            self.grounded = false;
            self.velocity.y = self.velocity.y + GRAVITY * dt;
        }
    }

    /// The landing response at one corner: snap the position back to the
    /// ground line, stop falling, and add spin away from the corner.
    fn land(&mut self, dist: i64, sin_seg: i64, left: bool)
        requires
            old(self).velocity.in_range(),
            1 <= old(self).size <= COORD_LIMIT,
            -0x800000000000 <= old(self).pos.y <= 0x800000000000,
            -0x600000000 <= dist <= 0x600000000,
            sin_seg != 0,
            -SCALE <= sin_seg <= SCALE,
            -0x100000000 <= old(self).ang_velocity <= 0x100000000,
        ensures
            final(self).pos.x == old(self).pos.x,
            final(self).rotation == old(self).rotation,
            final(self).size == old(self).size,
            final(self).velocity.x == old(self).velocity.x,
            final(self).velocity.y == 0,
            final(self).grounded,
            final(self).pos.y as int == old(self).pos.y + div_tz(
                dist * SCALE as int,
                sin_seg as int,
            ),
            final(self).ang_velocity as int == old(self).ang_velocity + (if left {
                spin_impulse(*old(self))
            } else {
                -spin_impulse(*old(self))
            }),
    {
        proof {
            lemma_mul_bound(dist as int, SCALE as int, 0x600000000int, SCALE as int);
        }
        let lift: i64 = div_trunc(dist * SCALE, sin_seg);
        self.pos.y = self.pos.y + lift;
        self.grounded = true;
        let speed: i64 = vec_len(self.velocity);
        proof {
            lemma_mul_bound(self.size as int, SQRT2_FIXED as int, COORD_LIMIT as int, SQRT2_FIXED as int);
            assert(self.size * SQRT2_FIXED as int >= SQRT2_FIXED) by (nonlinear_arith)
                requires
                    self.size >= 1,
            ;
            lemma_div_lower(self.size * SQRT2_FIXED as int, SCALE as int);
            lemma_mul_bound(speed as int, SCALE as int, 0x200000int, SCALE as int);
        }
        let diag: i64 = div_trunc(self.size * SQRT2_FIXED, SCALE);
        let ratio: i64 = div_trunc(speed * SCALE, diag);
        let spin: i64 = div_trunc(ratio, 10);
        if left {
            self.ang_velocity = self.ang_velocity + spin;
        } else {
            self.ang_velocity = self.ang_velocity - spin;
        }
        self.velocity.y = 0;
    }
}

} // verus!
