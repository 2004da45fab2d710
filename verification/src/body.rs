//! One simulated particle: a circular body with position, velocity, mass,
//! radius, a render color and a trail of its recent positions. The body owns
//! its motion, boundary reflection, pairwise elastic collision response and
//! pairwise gravity attraction, each stated exactly over the fixed-point
//! integer model.
//!
//! One convention holds throughout where a quantity is divided by a distance:
//! the collision response divides the unnormalized separation by the squared
//! center distance (the form that conserves momentum), and gravity divides by
//! the squared distance times the true (floor) distance, which is the unit
//! direction toward the other body scaled by the inverse-square law.

use vstd::prelude::*;
use crate::intmath::{
    is_sqrt_floor, isqrt_u128, lemma_mul_bounds, lemma_sqrt_floor_zero, lemma_trunc_div_bound,
    lemma_trunc_div_exact, quot_i128, sqrt_floor, trunc_div,
};
use crate::randsrc::random_range;
use crate::trail::{push_model, Trail, TrailSegment};
use crate::vec2d::Vec2d;
use crate::{COORD_LIMIT, G, MASS_LIMIT, SCALE, TRAIL_CAPACITY, VEL_LIMIT};

verus! {

/// `SCALE * SCALE`, precomputed.
pub const SCALE_SQ: i64 = 1_000_000_000_000;

/// `SCALE * SCALE * SCALE`, precomputed.
pub const SCALE_CUBED: i128 = 1_000_000_000_000_000_000;

/// Largest viewport extent, in world units, that randomized spawning accepts.
pub const VIEW_LIMIT: i64 = 1_000_000;

/// A render color; it has no physical meaning.
#[derive(Clone, Copy, Debug, PartialEq, Eq, Structural)]
pub struct Rgba {
    pub r: u8,
    pub g: u8,
    pub b: u8,
    pub a: u8,
}

/// A simulated circular particle.
#[derive(Clone, Debug)]
pub struct Body {
    pub position: Vec2d,
    pub velocity: Vec2d,
    pub mass: i64,
    pub radius: i64,
    pub color: Rgba,
    pub trail: Trail,
}

/// The observable state of one body: every field the host and the update
/// laws read, with the trail abstracted to its stored positions. The tick's
/// specification folds over these states.
#[verifier::ext_equal]
pub ghost struct BodyState {
    pub position: Vec2d,
    pub velocity: Vec2d,
    pub mass: i64,
    pub radius: i64,
    pub color: Rgba,
    pub trail: Seq<Vec2d>,
    pub trail_capacity: nat,
}

impl BodyState {
    /// Center separation along x, self minus other.
    pub open spec fn sep_x(self, other: BodyState) -> int {
        self.position.x - other.position.x
    }

    /// Center separation along y, self minus other.
    pub open spec fn sep_y(self, other: BodyState) -> int {
        self.position.y - other.position.y
    }

    /// Squared center distance, exactly.
    pub open spec fn dist_sq(self, other: BodyState) -> int {
        self.sep_x(other) * self.sep_x(other) + self.sep_y(other) * self.sep_y(other)
    }

    /// Dot product of the relative velocity with the center separation.
    pub open spec fn rel_dot(self, other: BodyState) -> int {
        (self.velocity.x - other.velocity.x) * self.sep_x(other) + (self.velocity.y
            - other.velocity.y) * self.sep_y(other)
    }

    /// The discs touch or overlap: center distance at most the radius sum.
    pub open spec fn touching(self, other: BodyState) -> bool {
        self.dist_sq(other) <= (self.radius + other.radius) * (self.radius + other.radius)
    }

    /// Common denominator of the elastic response: total mass times squared
    /// distance.
    pub open spec fn collision_den(self, other: BodyState) -> int {
        (self.mass + other.mass) * self.dist_sq(other)
    }

    /// The x velocity change of the elastic response, scaled by the opposite
    /// body's mass `m` and rounded toward zero.
    pub open spec fn impulse_x(self, other: BodyState, m: int) -> int {
        trunc_div(2 * m * self.rel_dot(other) * self.sep_x(other), self.collision_den(other))
    }

    /// The y velocity change of the elastic response, scaled by the opposite
    /// body's mass `m` and rounded toward zero.
    pub open spec fn impulse_y(self, other: BodyState, m: int) -> int {
        trunc_div(2 * m * self.rel_dot(other) * self.sep_y(other), self.collision_den(other))
    }

    /// Both post-collision velocities stay within the representable range.
    pub open spec fn response_fits(self, other: BodyState) -> bool {
        &&& -VEL_LIMIT <= self.velocity.x - self.impulse_x(other, other.mass as int) <= VEL_LIMIT
        &&& -VEL_LIMIT <= self.velocity.y - self.impulse_y(other, other.mass as int) <= VEL_LIMIT
        &&& -VEL_LIMIT <= other.velocity.x + self.impulse_x(other, self.mass as int) <= VEL_LIMIT
        &&& -VEL_LIMIT <= other.velocity.y + self.impulse_y(other, self.mass as int) <= VEL_LIMIT
    }

    /// Numerator of the gravity velocity change along x: the pull points from
    /// self toward other.
    pub open spec fn gravity_num_x(self, other: BodyState) -> int {
        G * SCALE_CUBED * other.mass * (other.position.x - self.position.x)
    }

    /// Numerator of the gravity velocity change along y.
    pub open spec fn gravity_num_y(self, other: BodyState) -> int {
        G * SCALE_CUBED * other.mass * (other.position.y - self.position.y)
    }

    /// Denominator of the gravity velocity change: squared distance times
    /// (floor) distance.
    pub open spec fn gravity_den(self, other: BodyState) -> int {
        self.dist_sq(other) * sqrt_floor(self.dist_sq(other))
    }

    /// The gravity velocity change along x, rounded toward zero.
    pub open spec fn gravity_dvx(self, other: BodyState) -> int {
        trunc_div(self.gravity_num_x(other), self.gravity_den(other))
    }

    /// The gravity velocity change along y, rounded toward zero.
    pub open spec fn gravity_dvy(self, other: BodyState) -> int {
        trunc_div(self.gravity_num_y(other), self.gravity_den(other))
    }

    /// The post-gravity velocity stays within the representable range.
    pub open spec fn gravity_fits(self, other: BodyState) -> bool {
        &&& -VEL_LIMIT <= self.velocity.x + self.gravity_dvx(other) <= VEL_LIMIT
        &&& -VEL_LIMIT <= self.velocity.y + self.gravity_dvy(other) <= VEL_LIMIT
    }
}

impl Body {
    /// The body's observable state.
    pub open spec fn state(self) -> BodyState {
        BodyState {
            position: self.position,
            velocity: self.velocity,
            mass: self.mass,
            radius: self.radius,
            color: self.color,
            trail: self.trail@,
            trail_capacity: self.trail.capacity(),
        }
    }

    /// Mass and radius are strictly positive, and every physical field lies in
    /// the range the update laws need.
    pub open spec fn wf(self) -> bool {
        &&& self.position.in_range(COORD_LIMIT as int)
        &&& self.velocity.in_range(VEL_LIMIT as int)
        &&& 1 <= self.mass <= MASS_LIMIT
        &&& 1 <= self.radius <= COORD_LIMIT
        &&& self.trail.wf()
    }

    /// Center separation along x, self minus other.
    pub open spec fn sep_x(self, other: Body) -> int {
        self.state().sep_x(other.state())
    }

    /// Center separation along y, self minus other.
    pub open spec fn sep_y(self, other: Body) -> int {
        self.state().sep_y(other.state())
    }

    /// Squared center distance, exactly.
    pub open spec fn dist_sq(self, other: Body) -> int {
        self.state().dist_sq(other.state())
    }

    /// Dot product of the relative velocity with the center separation.
    pub open spec fn rel_dot(self, other: Body) -> int {
        self.state().rel_dot(other.state())
    }

    /// The discs touch or overlap: center distance at most the radius sum.
    pub open spec fn touching(self, other: Body) -> bool {
        self.state().touching(other.state())
    }

    /// Common denominator of the elastic response.
    pub open spec fn collision_den(self, other: Body) -> int {
        self.state().collision_den(other.state())
    }

    /// The x velocity change of the elastic response, scaled by the opposite
    /// body's mass `m` and rounded toward zero.
    pub open spec fn impulse_x(self, other: Body, m: int) -> int {
        self.state().impulse_x(other.state(), m)
    }

    /// The y velocity change of the elastic response, scaled by the opposite
    /// body's mass `m` and rounded toward zero.
    pub open spec fn impulse_y(self, other: Body, m: int) -> int {
        self.state().impulse_y(other.state(), m)
    }

    /// Both post-collision velocities stay within the representable range.
    pub open spec fn response_fits(self, other: Body) -> bool {
        self.state().response_fits(other.state())
    }

    /// Numerator of the gravity velocity change along x.
    pub open spec fn gravity_num_x(self, other: Body) -> int {
        self.state().gravity_num_x(other.state())
    }

    /// Numerator of the gravity velocity change along y.
    pub open spec fn gravity_num_y(self, other: Body) -> int {
        self.state().gravity_num_y(other.state())
    }

    /// Denominator of the gravity velocity change.
    pub open spec fn gravity_den(self, other: Body) -> int {
        self.state().gravity_den(other.state())
    }

    /// The gravity velocity change along x, rounded toward zero.
    pub open spec fn gravity_dvx(self, other: Body) -> int {
        self.state().gravity_dvx(other.state())
    }

    /// The gravity velocity change along y, rounded toward zero.
    pub open spec fn gravity_dvy(self, other: Body) -> int {
        self.state().gravity_dvy(other.state())
    }

    /// The post-gravity velocity stays within the representable range.
    pub open spec fn gravity_fits(self, other: Body) -> bool {
        self.state().gravity_fits(other.state())
    }

    /// What randomized spawning guarantees of a fresh body: whole world-unit
    /// coordinates inside the viewport, a radius between one and ten units, a
    /// velocity between zero and three units per tick on each axis, a mass
    /// between one and ten, a white color and an empty trail of the standard
    /// capacity.
    pub open spec fn spawn_bounds(self, width: int, height: int) -> bool {
        &&& 0 <= self.position.x < width * SCALE && (self.position.x as int) % (SCALE as int) == 0
        &&& 0 <= self.position.y < height * SCALE && (self.position.y as int) % (SCALE as int) == 0
        &&& SCALE <= self.radius < 10 * SCALE && (self.radius as int) % (SCALE as int) == 0
        &&& 0 <= self.velocity.x < 3 * SCALE && (self.velocity.x as int) % (SCALE as int) == 0
        &&& 0 <= self.velocity.y < 3 * SCALE && (self.velocity.y as int) % (SCALE as int) == 0
        &&& 1 <= self.mass < 10
        &&& self.color == (Rgba { r: 255, g: 255, b: 255, a: 255 })
        &&& self.trail@ == Seq::<Vec2d>::empty()
        &&& self.trail.capacity() == TRAIL_CAPACITY
    }

    /// Everything but the velocity agrees between `pre` and `post`.
    pub open spec fn same_except_velocity(pre: Body, post: Body) -> bool {
        &&& post.position == pre.position
        &&& post.mass == pre.mass
        &&& post.radius == pre.radius
        &&& post.color == pre.color
        &&& post.trail == pre.trail
    }

    /// A body with the given fields and an empty trail.
    pub fn new(position: Vec2d, velocity: Vec2d, mass: i64, radius: i64, color: Rgba) -> (r: Body)
        requires
            position.in_range(COORD_LIMIT as int),
            velocity.in_range(VEL_LIMIT as int),
            1 <= mass <= MASS_LIMIT,
            1 <= radius <= COORD_LIMIT,
        ensures
            r.position == position,
            r.velocity == velocity,
            r.mass == mass,
            r.radius == radius,
            r.color == color,
            r.trail@ == Seq::<Vec2d>::empty(),
            r.trail.capacity() == TRAIL_CAPACITY,
            r.wf(),
    {
        let trail = Trail::new(TRAIL_CAPACITY);
        Body { position, velocity, mass, radius, color, trail }
    }

    /// A body drawn from the host's random source: position inside the given
    /// viewport, radius between one and ten units, velocity components between
    /// zero and three units per tick, mass between one and ten. The caller
    /// seeds the source once per randomization event.
    pub fn random(width: i64, height: i64) -> (r: Body)
        requires
            1 <= width <= VIEW_LIMIT,
            1 <= height <= VIEW_LIMIT,
        ensures
            r.wf(),
            r.spawn_bounds(width as int, height as int),
    {
        let radius_px = random_range(1, 10);
        let x_px = random_range(0, width);
        let y_px = random_range(0, height);
        let vx_px = random_range(0, 3);
        let vy_px = random_range(0, 3);
        let mass = random_range(1, 10);
        proof {
            lemma_mul_bounds(x_px as int, SCALE as int, VIEW_LIMIT as int, SCALE as int);
            lemma_mul_bounds(y_px as int, SCALE as int, VIEW_LIMIT as int, SCALE as int);
            assert(x_px * SCALE >= 0 && x_px * SCALE <= width * SCALE) by (nonlinear_arith)
                requires 0 <= x_px <= width && SCALE >= 1;
            assert(y_px * SCALE >= 0 && y_px * SCALE <= height * SCALE) by (nonlinear_arith)
                requires 0 <= y_px <= height && SCALE >= 1;
            assert(width * SCALE <= COORD_LIMIT) by (nonlinear_arith)
                requires 1 <= width <= 1_000_000 && SCALE == 1_000_000 && COORD_LIMIT
                    == 1_000_000_000_000;
            assert(height * SCALE <= COORD_LIMIT) by (nonlinear_arith)
                requires 1 <= height <= 1_000_000 && SCALE == 1_000_000 && COORD_LIMIT
                    == 1_000_000_000_000;
            vstd::arithmetic::div_mod::lemma_mod_multiples_basic(x_px as int, SCALE as int);
            vstd::arithmetic::div_mod::lemma_mod_multiples_basic(y_px as int, SCALE as int);
            vstd::arithmetic::div_mod::lemma_mod_multiples_basic(vx_px as int, SCALE as int);
            vstd::arithmetic::div_mod::lemma_mod_multiples_basic(vy_px as int, SCALE as int);
            vstd::arithmetic::div_mod::lemma_mod_multiples_basic(radius_px as int, SCALE as int);
            assert(vx_px * SCALE < 3 * SCALE && vy_px * SCALE < 3 * SCALE && SCALE <= radius_px
                * SCALE < 10 * SCALE) by (nonlinear_arith)
                requires
                    0 <= vx_px < 3 && 0 <= vy_px < 3 && 1 <= radius_px < 10 && SCALE >= 1;
            assert(x_px * SCALE < width * SCALE && y_px * SCALE < height * SCALE)
                by (nonlinear_arith)
                requires
                    0 <= x_px < width && 0 <= y_px < height && SCALE >= 1;
        }
        let position = Vec2d::new(x_px * SCALE, y_px * SCALE);
        let velocity = Vec2d::new(vx_px * SCALE, vy_px * SCALE);
        let radius = radius_px * SCALE;
        let color = Rgba { r: 255, g: 255, b: 255, a: 255 };
        let trail = Trail::new(TRAIL_CAPACITY);
        Body { position, velocity, mass, radius, color, trail }
    }

    pub fn position(&self) -> (r: Vec2d)
        ensures
            r == self.position,
    {
        self.position
    }

    pub fn velocity(&self) -> (r: Vec2d)
        ensures
            r == self.velocity,
    {
        self.velocity
    }

    pub fn mass(&self) -> (r: i64)
        ensures
            r == self.mass,
    {
        self.mass
    }

    pub fn set_velocity(&mut self, velocity: Vec2d)
        requires
            velocity.in_range(VEL_LIMIT as int),
        ensures
            final(self).velocity == velocity,
            Body::same_except_velocity(*old(self), *final(self)),
    {
        self.velocity = velocity;
    }

    /// The trail's drawable segments, exactly as the trail reports them.
    pub fn draw_trails(&self) -> (r: Vec<TrailSegment>)
        ensures
            self.trail@.len() == 0 ==> r@.len() == 0,
            self.trail@.len() >= 1 ==> r@.len() == self.trail@.len() - 1,
            forall|k: int|
                0 <= k < r@.len() ==> {
                    &&& (#[trigger] r@[k]).from == self.trail@[k]
                    &&& r@[k].to == self.trail@[k + 1]
                    &&& r@[k].opacity_num == k + 1
                    &&& r@[k].opacity_den == self.trail@.len()
                },
    {
        self.trail.draw()
    }

    /// One explicit-Euler step: the position advances by `velocity * dt`, with
    /// `dt = dt_num / dt_den` ticks, each component rounded toward zero; then
    /// the new position is appended to the trail. A step that would leave the
    /// representable coordinate range leaves the position in place.
    pub fn move_body(&mut self, dt_num: i64, dt_den: i64)
        requires
            old(self).wf(),
            1 <= dt_num <= SCALE,
            1 <= dt_den <= SCALE,
        ensures
            final(self).wf(),
            ({
                let nx = old(self).position.x + trunc_div(
                    old(self).velocity.x * dt_num,
                    dt_den as int,
                );
                let ny = old(self).position.y + trunc_div(
                    old(self).velocity.y * dt_num,
                    dt_den as int,
                );
                if -COORD_LIMIT <= nx <= COORD_LIMIT && -COORD_LIMIT <= ny <= COORD_LIMIT {
                    final(self).position.x == nx && final(self).position.y == ny
                } else {
                    final(self).position == old(self).position
                }
            }),
            final(self).velocity == old(self).velocity,
            final(self).mass == old(self).mass,
            final(self).radius == old(self).radius,
            final(self).color == old(self).color,
            final(self).trail@ == push_model(
                old(self).trail@,
                old(self).trail.capacity(),
                final(self).position,
            ),
            final(self).trail.capacity() == old(self).trail.capacity(),
    {
        proof {
            lemma_mul_bounds(
                self.velocity.x as int,
                dt_num as int,
                VEL_LIMIT as int,
                SCALE as int,
            );
            lemma_mul_bounds(
                self.velocity.y as int,
                dt_num as int,
                VEL_LIMIT as int,
                SCALE as int,
            );
            lemma_trunc_div_bound(
                self.velocity.x * dt_num,
                dt_den as int,
                0x8000_0000_0000_0000_0000,
            );
            lemma_trunc_div_bound(
                self.velocity.y * dt_num,
                dt_den as int,
                0x8000_0000_0000_0000_0000,
            );
        }
        let qx = quot_i128((self.velocity.x as i128) * (dt_num as i128), dt_den as i128);
        let qy = quot_i128((self.velocity.y as i128) * (dt_num as i128), dt_den as i128);
        let nx = (self.position.x as i128) + qx;
        let ny = (self.position.y as i128) + qy;
        if -COORD_LIMIT as i128 <= nx && nx <= COORD_LIMIT as i128 && -COORD_LIMIT as i128 <= ny
            && ny <= COORD_LIMIT as i128 {
            self.position = Vec2d::new(nx as i64, ny as i64);
        }
        let pos = self.position;
        self.trail.update(pos);
    }

    /// Reflects the velocity off the viewport edges: on each axis, if the
    /// body's edge reaches or passes the bound, that velocity component flips
    /// sign. Positions are not clamped, so a fast body can pass the bound
    /// before the flip is observed; the simple sign flip is kept deliberately
    /// in place of a penetration-resolving reflection.
    pub fn check_boundary_collision(&mut self, width: i64, height: i64)
        requires
            old(self).wf(),
            1 <= width <= COORD_LIMIT,
            1 <= height <= COORD_LIMIT,
        ensures
            final(self).wf(),
            (old(self).position.x + old(self).radius >= width || old(self).position.x - old(
                self).radius <= 0) ==> final(self).velocity.x == -old(self).velocity.x,
            !(old(self).position.x + old(self).radius >= width || old(self).position.x - old(
                self).radius <= 0) ==> final(self).velocity.x == old(self).velocity.x,
            (old(self).position.y + old(self).radius >= height || old(self).position.y - old(
                self).radius <= 0) ==> final(self).velocity.y == -old(self).velocity.y,
            !(old(self).position.y + old(self).radius >= height || old(self).position.y - old(
                self).radius <= 0) ==> final(self).velocity.y == old(self).velocity.y,
            Body::same_except_velocity(*old(self), *final(self)),
    {
        let px = self.position.x;
        let py = self.position.y;
        if px + self.radius >= width || px - self.radius <= 0 {
            let vx = self.velocity.x;
            self.velocity.set_x(-vx);
        }
        if py + self.radius >= height || py - self.radius <= 0 {
            let vy = self.velocity.y;
            self.velocity.set_y(-vy);
        }
    }

    /// The center distance, rounded down to an integer.
    pub fn distance(&self, other: &Body) -> (r: i64)
        requires
            self.wf(),
            other.wf(),
        ensures
            r == sqrt_floor(self.dist_sq(*other)),
            is_sqrt_floor(self.dist_sq(*other), r as int),
            r >= 0,
    {
        let sx = (self.position.x as i128) - (other.position.x as i128);
        let sy = (self.position.y as i128) - (other.position.y as i128);
        proof {
            lemma_mul_bounds(sx as int, sx as int, 2 * COORD_LIMIT as int, 2 * COORD_LIMIT as int);
            lemma_mul_bounds(sy as int, sy as int, 2 * COORD_LIMIT as int, 2 * COORD_LIMIT as int);
            assert(sx * sx >= 0 && sy * sy >= 0) by (nonlinear_arith);
        }
        let ns = sx * sx + sy * sy;
        let root = isqrt_u128(ns as u128);
        proof {
            assert(root < 0x4_0000_0000_0000u64) by (nonlinear_arith)
                requires
                    (root as int) >= 0,
                    (root as int) * (root as int) <= 8_000_000_000_000_000_000_000_000int;
        }
        root as i64
    }

    /// Whether the discs touch or overlap, by the exact comparison of the
    /// squared distance with the squared radius sum.
    pub fn overlaps(&self, other: &Body) -> (r: bool)
        requires
            self.wf(),
            other.wf(),
        ensures
            r == self.touching(*other),
    {
        let sx = (self.position.x as i128) - (other.position.x as i128);
        let sy = (self.position.y as i128) - (other.position.y as i128);
        proof {
            lemma_mul_bounds(sx as int, sx as int, 2 * COORD_LIMIT as int, 2 * COORD_LIMIT as int);
            lemma_mul_bounds(sy as int, sy as int, 2 * COORD_LIMIT as int, 2 * COORD_LIMIT as int);
            lemma_mul_bounds(
                (self.radius + other.radius) as int,
                (self.radius + other.radius) as int,
                2 * COORD_LIMIT as int,
                2 * COORD_LIMIT as int,
            );
        }
        let ns = sx * sx + sy * sy;
        let rsum = (self.radius as i128) + (other.radius as i128);
        ns <= rsum * rsum
    }

    /// The elastic collision response: `Some` holds the two post-collision
    /// velocities, both computed from the pre-collision state and exact up to
    /// rounding each component toward zero. `None` means the interaction is
    /// skipped for this tick: the discs do not touch, their centers coincide
    /// (the degenerate case), or a resulting component would leave the
    /// representable velocity range.
    pub fn collision_response(&self, other: &Body) -> (r: Option<(Vec2d, Vec2d)>)
        requires
            self.wf(),
            other.wf(),
        ensures
            r is Some <==> (self.touching(*other) && self.dist_sq(*other) > 0
                && self.response_fits(*other)),
            r matches Some(p) ==> {
                &&& p.0.x == self.velocity.x - self.impulse_x(*other, other.mass as int)
                &&& p.0.y == self.velocity.y - self.impulse_y(*other, other.mass as int)
                &&& p.1.x == other.velocity.x + self.impulse_x(*other, self.mass as int)
                &&& p.1.y == other.velocity.y + self.impulse_y(*other, self.mass as int)
                &&& p.0.in_range(VEL_LIMIT as int)
                &&& p.1.in_range(VEL_LIMIT as int)
            },
    {
        let sx = (self.position.x as i128) - (other.position.x as i128);
        let sy = (self.position.y as i128) - (other.position.y as i128);
        proof {
            lemma_mul_bounds(sx as int, sx as int, 2 * COORD_LIMIT as int, 2 * COORD_LIMIT as int);
            lemma_mul_bounds(sy as int, sy as int, 2 * COORD_LIMIT as int, 2 * COORD_LIMIT as int);
            lemma_mul_bounds(
                (self.radius + other.radius) as int,
                (self.radius + other.radius) as int,
                2 * COORD_LIMIT as int,
                2 * COORD_LIMIT as int,
            );
            assert(sx * sx >= 0 && sy * sy >= 0) by (nonlinear_arith);
        }
        let ns = sx * sx + sy * sy;
        let rsum = (self.radius as i128) + (other.radius as i128);
        if ns > rsum * rsum {
            return None;
        }
        if ns == 0 {
            return None;
        }
        let dvx = (self.velocity.x as i128) - (other.velocity.x as i128);
        let dvy = (self.velocity.y as i128) - (other.velocity.y as i128);
        proof {
            lemma_mul_bounds(dvx as int, sx as int, 2 * VEL_LIMIT as int, 2 * COORD_LIMIT as int);
            lemma_mul_bounds(dvy as int, sy as int, 2 * VEL_LIMIT as int, 2 * COORD_LIMIT as int);
        }
        let dot = dvx * sx + dvy * sy;
        let msum = (self.mass as i128) + (other.mass as i128);
        proof {
            lemma_mul_bounds(
                msum as int,
                ns as int,
                2 * MASS_LIMIT as int,
                8_000_000_000_000_000_000_000_000int,
            );
            assert(msum * ns >= 1) by (nonlinear_arith)
                requires msum >= 2 && ns >= 1;
        }
        let den = msum * ns;
        let qax = Body::scaled_impulse(other.mass, dot, sx, den);
        let qay = Body::scaled_impulse(other.mass, dot, sy, den);
        let qbx = Body::scaled_impulse(self.mass, dot, sx, den);
        let qby = Body::scaled_impulse(self.mass, dot, sy, den);
        let nax = (self.velocity.x as i128) - qax;
        let nay = (self.velocity.y as i128) - qay;
        let nbx = (other.velocity.x as i128) + qbx;
        let nby = (other.velocity.y as i128) + qby;
        let lim = VEL_LIMIT as i128;
        if -lim <= nax && nax <= lim && -lim <= nay && nay <= lim && -lim <= nbx && nbx <= lim
            && -lim <= nby && nby <= lim {
            Some((Vec2d::new(nax as i64, nay as i64), Vec2d::new(nbx as i64, nby as i64)))
        } else {
            None
        }
    }

    /// `2 * m * dot * s / den`, rounded toward zero, with the operand ranges
    /// the collision response produces.
    fn scaled_impulse(m: i64, dot: i128, s: i128, den: i128) -> (q: i128)
        requires
            1 <= m <= MASS_LIMIT,
            -8_000_000_000_000_000_000_000i128 <= dot <= 8_000_000_000_000_000_000_000i128,
            -2_000_000_000_000i128 <= s <= 2_000_000_000_000i128,
            1 <= den,
        ensures
            q == trunc_div(2 * m * dot * s, den as int),
            -32_000_000_000_000_000_000_000_000_000_000_000_000i128 <= q
                <= 32_000_000_000_000_000_000_000_000_000_000_000_000i128,
    {
        proof {
            lemma_mul_bounds(2 * m as int, dot as int, 2 * MASS_LIMIT as int,
                8_000_000_000_000_000_000_000int);
            lemma_mul_bounds(
                2 * m * dot,
                s as int,
                16_000_000_000_000_000_000_000_000int,
                2_000_000_000_000int,
            );
            assert((den as int) * 32_000_000_000_000_000_000_000_000_000_000_000_000
                >= 32_000_000_000_000_000_000_000_000_000_000_000_000) by (nonlinear_arith)
                requires (den as int) >= 1;
            lemma_trunc_div_bound(
                2 * m * dot * s,
                den as int,
                32_000_000_000_000_000_000_000_000_000_000_000_000int,
            );
        }
        let num = 2 * (m as i128) * dot * s;
        quot_i128(num, den)
    }

    /// Applies the two post-collision velocities at once when the discs touch;
    /// the degenerate and out-of-range cases skip the interaction, leaving
    /// both bodies unchanged.
    pub fn handle_collision(&mut self, other: &mut Body)
        requires
            old(self).wf(),
            old(other).wf(),
        ensures
            final(self).wf(),
            final(other).wf(),
            Body::same_except_velocity(*old(self), *final(self)),
            Body::same_except_velocity(*old(other), *final(other)),
            (old(self).touching(*old(other)) && old(self).dist_sq(*old(other)) > 0 && old(self).response_fits(*old(other))) ==> {
                &&& final(self).velocity.x == old(self).velocity.x - old(self).impulse_x(
                    *old(other),
                    old(other).mass as int,
                )
                &&& final(self).velocity.y == old(self).velocity.y - old(self).impulse_y(
                    *old(other),
                    old(other).mass as int,
                )
                &&& final(other).velocity.x == old(other).velocity.x + old(self).impulse_x(
                    *old(other),
                    old(self).mass as int,
                )
                &&& final(other).velocity.y == old(other).velocity.y + old(self).impulse_y(
                    *old(other),
                    old(self).mass as int,
                )
            },
            !(old(self).touching(*old(other)) && old(self).dist_sq(*old(other)) > 0 && old(self).response_fits(*old(other))) ==> {
                final(self).velocity == old(self).velocity && final(other).velocity == old(other).velocity
            },
    {
        let response = self.collision_response(other);
        if let Some((va, vb)) = response {
            self.set_velocity(va);
            other.set_velocity(vb);
        }
    }

    /// Adds the one-tick gravity pull of `other` to this body's velocity:
    /// `G * m_other / distance^2` along the unit vector toward `other`,
    /// with each component rounded toward zero. A separation of at most one
    /// world unit skips the pull (the singularity guard), and a result outside
    /// the representable velocity range skips it too. Only this body changes;
    /// the reciprocal pull takes a separate call with the roles swapped.
    pub fn apply_gravity(&mut self, other: &Body)
        requires
            old(self).wf(),
            other.wf(),
        ensures
            final(self).wf(),
            Body::same_except_velocity(*old(self), *final(self)),
            old(self).dist_sq(*other) <= SCALE_SQ ==> final(self).velocity == old(self).velocity,
            (old(self).dist_sq(*other) > SCALE_SQ && !old(self).gravity_fits(*other)) ==> final(self).velocity == old(self).velocity,
            (old(self).dist_sq(*other) > SCALE_SQ && old(self).gravity_fits(*other)) ==> {
                &&& final(self).velocity.x == old(self).velocity.x + old(self).gravity_dvx(*other)
                &&& final(self).velocity.y == old(self).velocity.y + old(self).gravity_dvy(*other)
            },
    {
        let r = self.gravity_update(other);
        if let Some(v) = r {
            self.set_velocity(v);
        }
    }

    /// The velocity this body would take from one gravity pull of `other`,
    /// or `None` where the pull is skipped: a separation of at most one world
    /// unit (the singularity guard), or a result outside the representable
    /// velocity range.
    pub fn gravity_update(&self, other: &Body) -> (r: Option<Vec2d>)
        requires
            self.wf(),
            other.wf(),
        ensures
            r is Some <==> (self.dist_sq(*other) > SCALE_SQ && self.gravity_fits(*other)),
            r matches Some(v) ==> {
                &&& v.x == self.velocity.x + self.gravity_dvx(*other)
                &&& v.y == self.velocity.y + self.gravity_dvy(*other)
                &&& v.in_range(VEL_LIMIT as int)
            },
    {
        let sx = (other.position.x as i128) - (self.position.x as i128);
        let sy = (other.position.y as i128) - (self.position.y as i128);
        proof {
            lemma_mul_bounds(sx as int, sx as int, 2 * COORD_LIMIT as int, 2 * COORD_LIMIT as int);
            lemma_mul_bounds(sy as int, sy as int, 2 * COORD_LIMIT as int, 2 * COORD_LIMIT as int);
            assert(sx * sx >= 0 && sy * sy >= 0) by (nonlinear_arith);
            assert(sx * sx == (self.position.x - other.position.x) * (self.position.x
                - other.position.x)) by (nonlinear_arith)
                requires sx == other.position.x - self.position.x;
            assert(sy * sy == (self.position.y - other.position.y) * (self.position.y
                - other.position.y)) by (nonlinear_arith)
                requires sy == other.position.y - self.position.y;
        }
        let ns = sx * sx + sy * sy;
        if ns <= SCALE_SQ as i128 {
            return None;
        }
        let root = isqrt_u128(ns as u128);
        proof {
            assert((root as int) <= 3_000_000_000_000) by (nonlinear_arith)
                requires
                    (root as int) >= 0,
                    (root as int) * (root as int) <= 8_000_000_000_000_000_000_000_000int;
            lemma_sqrt_floor_zero(ns as int, root as int);
            lemma_mul_bounds(
                ns as int,
                root as int,
                8_000_000_000_000_000_000_000_000int,
                3_000_000_000_000int,
            );
            assert(ns * (root as i128) >= 1) by (nonlinear_arith)
                requires ns >= 1 && (root as i128) >= 1;
        }
        let den = ns * (root as i128);
        proof {
            assert(0 <= G * SCALE_CUBED * other.mass <= 1_000_000_000_000_000_000_000)
                by (nonlinear_arith)
                requires
                    G == 1,
                    SCALE_CUBED == 1_000_000_000_000_000_000,
                    1 <= other.mass <= 1_000;
            lemma_mul_bounds(
                G * SCALE_CUBED * other.mass,
                sx as int,
                1_000_000_000_000_000_000_000int,
                2_000_000_000_000int,
            );
            lemma_mul_bounds(
                G * SCALE_CUBED * other.mass,
                sy as int,
                1_000_000_000_000_000_000_000int,
                2_000_000_000_000int,
            );
        }
        let scaled_mass = (G as i128) * SCALE_CUBED * (other.mass as i128);
        let qx = quot_i128(scaled_mass * sx, den);
        let qy = quot_i128(scaled_mass * sy, den);
        let nvx = (self.velocity.x as i128) + qx;
        let nvy = (self.velocity.y as i128) + qy;
        let lim = VEL_LIMIT as i128;
        if -lim <= nvx && nvx <= lim && -lim <= nvy && nvy <= lim {
            Some(Vec2d::new(nvx as i64, nvy as i64))
        } else {
            None
        }
    }
}

/// Touching is symmetric: both bodies report the same overlap.
pub proof fn lemma_touching_symmetric(a: Body, b: Body)
    ensures
        a.touching(b) == b.touching(a),
        a.dist_sq(b) == b.dist_sq(a),
{
    assert(a.sep_x(b) * a.sep_x(b) == b.sep_x(a) * b.sep_x(a)) by (nonlinear_arith)
        requires a.sep_x(b) == -b.sep_x(a);
    assert(a.sep_y(b) * a.sep_y(b) == b.sep_y(a) * b.sep_y(a)) by (nonlinear_arith)
        requires a.sep_y(b) == -b.sep_y(a);
    assert((a.radius + b.radius) * (a.radius + b.radius) == (b.radius + a.radius) * (b.radius
        + a.radius));
}

/// The exact reciprocal gravity pulls of a pair cancel: over the common
/// denominator (the squared distance is symmetric, so both pulls share it),
/// the two momentum-change numerators sum to zero. The executable update
/// rounds each quotient toward zero, and the tick applies only one side of
/// each pair.
pub proof fn lemma_reciprocal_gravity_cancels(a: Body, b: Body)
    ensures
        a.mass * a.gravity_num_x(b) + b.mass * b.gravity_num_x(a) == 0,
        a.mass * a.gravity_num_y(b) + b.mass * b.gravity_num_y(a) == 0,
        a.gravity_den(b) == b.gravity_den(a),
{
    assert(a.mass * (G * SCALE_CUBED * b.mass * (b.position.x - a.position.x)) + b.mass * (G
        * SCALE_CUBED * a.mass * (a.position.x - b.position.x)) == 0) by (nonlinear_arith);
    assert(a.mass * (G * SCALE_CUBED * b.mass * (b.position.y - a.position.y)) + b.mass * (G
        * SCALE_CUBED * a.mass * (a.position.y - b.position.y)) == 0) by (nonlinear_arith);
    lemma_touching_symmetric(a, b);
}

/// Scaled by the common denominator `den` of the exact elastic response, the
/// total momentum along an axis is unchanged: with `imp` the shared product of
/// the relative-velocity dot and the separation component, the two impulse
/// numerators `2 * mb * imp` and `2 * ma * imp` cancel exactly. The executable
/// update additionally rounds each quotient toward zero.
pub proof fn lemma_collision_conserves_momentum(
    ma: int,
    mb: int,
    vax: int,
    vbx: int,
    imp: int,
    den: int,
)
    ensures
        ma * (vax * den - 2 * mb * imp) + mb * (vbx * den + 2 * ma * imp) == (ma * vax + mb * vbx)
            * den,
{
    assert(ma * (vax * den - 2 * mb * imp) == ma * (vax * den) - 2 * (ma * mb) * imp)
        by (nonlinear_arith);
    assert(mb * (vbx * den + 2 * ma * imp) == mb * (vbx * den) + 2 * (ma * mb) * imp)
        by (nonlinear_arith);
    assert(ma * (vax * den) + mb * (vbx * den) == (ma * vax + mb * vbx) * den)
        by (nonlinear_arith);
}

/// For equal masses with the relative velocity along the line of centers, the
/// elastic response exchanges the two velocities exactly, rounding included.
pub proof fn lemma_equal_mass_exchange(a: Body, b: Body)
    requires
        a.wf(),
        b.wf(),
        a.mass == b.mass,
        a.dist_sq(b) > 0,
        (a.velocity.x - b.velocity.x) * a.sep_y(b) == (a.velocity.y - b.velocity.y) * a.sep_x(b),
    ensures
        a.velocity.x - a.impulse_x(b, b.mass as int) == b.velocity.x,
        a.velocity.y - a.impulse_y(b, b.mass as int) == b.velocity.y,
        b.velocity.x + a.impulse_x(b, a.mass as int) == a.velocity.x,
        b.velocity.y + a.impulse_y(b, a.mass as int) == a.velocity.y,
{
    let m = a.mass as int;
    let sx = a.sep_x(b);
    let sy = a.sep_y(b);
    let ns = a.dist_sq(b);
    let dot = a.rel_dot(b);
    let rvx = a.velocity.x - b.velocity.x;
    let rvy = a.velocity.y - b.velocity.y;
    let den = a.collision_den(b);
    assert(dot * sx == rvx * ns && dot * sy == rvy * ns) by (nonlinear_arith)
        requires
            dot == rvx * sx + rvy * sy,
            rvx * sy == rvy * sx,
            ns == sx * sx + sy * sy;
    assert(den == 2 * m * ns && den >= 1) by (nonlinear_arith)
        requires
            den == (m + m) * ns,
            m >= 1,
            ns >= 1;
    assert(2 * m * dot * sx == rvx * den && 2 * m * dot * sy == rvy * den) by (nonlinear_arith)
        requires
            dot * sx == rvx * ns,
            dot * sy == rvy * ns,
            den == 2 * m * ns;
    lemma_trunc_div_exact(rvx, den);
    lemma_trunc_div_exact(rvy, den);
}

} // verus!
