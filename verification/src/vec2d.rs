//! A 2D vector over fixed-point integer coordinates, with the arithmetic the
//! physics needs: componentwise sums and differences, scalar products and
//! quotients, the dot product, the (floor of the) Euclidean norm, and
//! normalization to a vector of length `SCALE` subunits.

use vstd::prelude::*;
use crate::intmath::{
    is_sqrt_floor, isqrt_u128, lemma_sqrt_floor_of, lemma_sqrt_floor_zero, lemma_trunc_div_bound,
    quot_i128, sqrt_floor, trunc_div,
};
use crate::SCALE;

verus! {

/// Largest component magnitude the norm-related operations accept.
pub const VEC_LIMIT: i64 = 0x4_0000_0000_0000;

/// The recoverable failures of the vector and body arithmetic: a scalar
/// division by zero, and normalizing or colliding at a degenerate (zero)
/// separation.
#[derive(Clone, Copy, Debug, PartialEq, Eq, Structural)]
pub enum PhysicsError {
    DivideByZero,
    DegenerateVector,
}

/// An immutable 2D value: `x` and `y` are fixed-point subunit coordinates.
#[derive(Clone, Copy, Debug, PartialEq, Eq, Structural)]
pub struct Vec2d {
    pub x: i64,
    pub y: i64,
}

impl Vec2d {
    /// The squared Euclidean norm, exactly.
    pub open spec fn norm_sq(self) -> int {
        self.x * self.x + self.y * self.y
    }

    /// Both components lie within `limit`.
    pub open spec fn in_range(self, limit: int) -> bool {
        -limit <= self.x <= limit && -limit <= self.y <= limit
    }

    pub fn new(x: i64, y: i64) -> (r: Vec2d)
        ensures
            r.x == x,
            r.y == y,
    {
        Vec2d { x, y }
    }

    pub fn x(&self) -> (r: i64)
        ensures
            r == self.x,
    {
        self.x
    }

    pub fn y(&self) -> (r: i64)
        ensures
            r == self.y,
    {
        self.y
    }

    pub fn set_x(&mut self, x: i64)
        ensures
            final(self).x == x,
            final(self).y == old(self).y,
    {
        self.x = x;
    }

    pub fn set_y(&mut self, y: i64)
        ensures
            final(self).x == old(self).x,
            final(self).y == y,
    {
        self.y = y;
    }

    /// Componentwise sum.
    pub fn add(&self, other: &Vec2d) -> (r: Vec2d)
        requires
            i64::MIN <= self.x + other.x <= i64::MAX,
            i64::MIN <= self.y + other.y <= i64::MAX,
        ensures
            r.x == self.x + other.x,
            r.y == self.y + other.y,
    {
        Vec2d { x: self.x + other.x, y: self.y + other.y }
    }

    /// Componentwise difference.
    pub fn sub(&self, other: &Vec2d) -> (r: Vec2d)
        requires
            i64::MIN <= self.x - other.x <= i64::MAX,
            i64::MIN <= self.y - other.y <= i64::MAX,
        ensures
            r.x == self.x - other.x,
            r.y == self.y - other.y,
    {
        Vec2d { x: self.x - other.x, y: self.y - other.y }
    }

    /// Componentwise product with a scalar.
    pub fn scale(&self, s: i64) -> (r: Vec2d)
        requires
            i64::MIN <= self.x * s <= i64::MAX,
            i64::MIN <= self.y * s <= i64::MAX,
        ensures
            r.x == self.x * s,
            r.y == self.y * s,
    {
        let x = ((self.x as i128) * (s as i128)) as i64;
        let y = ((self.y as i128) * (s as i128)) as i64;
        Vec2d { x, y }
    }

    /// Componentwise quotient by a scalar, rounded toward zero. Fails if and
    /// only if the scalar is zero.
    pub fn divide(&self, s: i64) -> (r: Result<Vec2d, PhysicsError>)
        requires
            self.in_range(VEC_LIMIT as int),
        ensures
            r matches Ok(v) ==> v.in_range(VEC_LIMIT as int),
            s == 0 <==> (r matches Err(e) && e == PhysicsError::DivideByZero),
            s > 0 ==> (r matches Ok(v) && v.x == trunc_div(self.x as int, s as int) && v.y
                == trunc_div(self.y as int, s as int)),
            s < 0 ==> (r matches Ok(v) && v.x == -trunc_div(self.x as int, -(s as int)) && v.y
                == -trunc_div(self.y as int, -(s as int))),
    {
        if s == 0 {
            return Err(PhysicsError::DivideByZero);
        }
        let mag: i128 = if s > 0 {
            s as i128
        } else {
            -(s as i128)
        };
        proof {
            assert((mag as int) * (VEC_LIMIT as int) >= VEC_LIMIT) by (nonlinear_arith)
                requires (mag as int) >= 1 && VEC_LIMIT >= 1;
        }
        let qx = quot_i128(self.x as i128, mag);
        let qy = quot_i128(self.y as i128, mag);
        proof {
            lemma_trunc_div_bound(self.x as int, mag as int, VEC_LIMIT as int);
            lemma_trunc_div_bound(self.y as int, mag as int, VEC_LIMIT as int);
        }
        if s > 0 {
            Ok(Vec2d { x: qx as i64, y: qy as i64 })
        } else {
            Ok(Vec2d { x: (-qx) as i64, y: (-qy) as i64 })
        }
    }

    /// The dot product, exactly.
    pub fn dot(&self, other: &Vec2d) -> (r: i128)
        requires
            self.in_range(VEC_LIMIT as int),
            other.in_range(VEC_LIMIT as int),
        ensures
            r == self.x * other.x + self.y * other.y,
    {
        proof {
            assert(-0x10_0000_0000_0000_0000_0000_0000i128 <= (self.x as int) * (other.x as int)
                <= 0x10_0000_0000_0000_0000_0000_0000i128) by (nonlinear_arith)
                requires
                    -(VEC_LIMIT as int) <= self.x as int <= VEC_LIMIT as int,
                    -(VEC_LIMIT as int) <= other.x as int <= VEC_LIMIT as int,
                    VEC_LIMIT == 0x4_0000_0000_0000;
            assert(-0x10_0000_0000_0000_0000_0000_0000i128 <= (self.y as int) * (other.y as int)
                <= 0x10_0000_0000_0000_0000_0000_0000i128) by (nonlinear_arith)
                requires
                    -(VEC_LIMIT as int) <= self.y as int <= VEC_LIMIT as int,
                    -(VEC_LIMIT as int) <= other.y as int <= VEC_LIMIT as int,
                    VEC_LIMIT == 0x4_0000_0000_0000;
        }
        (self.x as i128) * (other.x as i128) + (self.y as i128) * (other.y as i128)
    }

    /// The Euclidean norm rounded down to an integer. It is non-negative, and
    /// zero exactly on the zero vector.
    pub fn norm(&self) -> (r: i64)
        requires
            self.in_range(VEC_LIMIT as int),
        ensures
            r == sqrt_floor(self.norm_sq()),
            is_sqrt_floor(self.norm_sq(), r as int),
            r >= 0,
            r == 0 <==> (self.x == 0 && self.y == 0),
    {
        let ns: i128 = self.dot(self);
        proof {
            assert(0 <= (self.x as int) * (self.x as int) + (self.y as int) * (self.y as int)
                <= 0x20_0000_0000_0000_0000_0000_0000int) by (nonlinear_arith)
                requires
                    -0x4_0000_0000_0000 <= (self.x as int) && (self.x as int)
                        <= 0x4_0000_0000_0000,
                    -0x4_0000_0000_0000 <= (self.y as int) && (self.y as int)
                        <= 0x4_0000_0000_0000;
        }
        let root = isqrt_u128(ns as u128);
        proof {
            assert(is_sqrt_floor(self.norm_sq(), root as int));
            assert(root < 0x8_0000_0000_0000u64) by (nonlinear_arith)
                requires
                    (root as int) >= 0,
                    (root as int) * (root as int)
                        <= 0x20_0000_0000_0000_0000_0000_0000int;
            lemma_sqrt_floor_zero(self.norm_sq(), root as int);
            assert((self.x as int) * (self.x as int) + (self.y as int) * (self.y as int) == 0
                <==> (self.x == 0 && self.y == 0)) by (nonlinear_arith);
        }
        root as i64
    }

    /// The vector rescaled to (floor) length `SCALE`: each component becomes
    /// `component * SCALE / norm`, rounded toward zero. Fails if and only if
    /// the vector is zero.
    pub fn normalize(&self) -> (r: Result<Vec2d, PhysicsError>)
        requires
            self.in_range(VEC_LIMIT as int),
        ensures
            (self.x == 0 && self.y == 0) <==> (r matches Err(e) && e
                == PhysicsError::DegenerateVector),
            (self.x != 0 || self.y != 0) ==> (r matches Ok(v) && v.x == trunc_div(
                self.x * SCALE,
                sqrt_floor(self.norm_sq()),
            ) && v.y == trunc_div(self.y * SCALE, sqrt_floor(self.norm_sq()))
                && v.in_range(SCALE as int)),
    {
        let m = self.norm();
        if m == 0 {
            return Err(PhysicsError::DegenerateVector);
        }
        let sx = (self.x as i128) * (SCALE as i128);
        let sy = (self.y as i128) * (SCALE as i128);
        proof {
            assert(-(VEC_LIMIT as int) * (SCALE as int) <= (self.x as int) * (SCALE as int)
                <= (VEC_LIMIT as int) * (SCALE as int)) by (nonlinear_arith)
                requires
                    -(VEC_LIMIT as int) <= self.x as int <= VEC_LIMIT as int,
                    SCALE >= 1;
            assert(-(VEC_LIMIT as int) * (SCALE as int) <= (self.y as int) * (SCALE as int)
                <= (VEC_LIMIT as int) * (SCALE as int)) by (nonlinear_arith)
                requires
                    -(VEC_LIMIT as int) <= self.y as int <= VEC_LIMIT as int,
                    SCALE >= 1;
            assert((VEC_LIMIT as int) * (SCALE as int)
                < 0x4000_0000_0000_0000_0000_0000_0000_0000int);
        }
        let qx = quot_i128(sx, m as i128);
        let qy = quot_i128(sy, m as i128);
        proof {
            lemma_component_le_norm(self.x as int, self.y as int, m as int);
            assert(-(m as int) * (SCALE as int) <= (self.x as int) * (SCALE as int)
                <= (m as int) * (SCALE as int)) by (nonlinear_arith)
                requires
                    -(m as int) <= self.x as int <= m as int,
                    SCALE >= 1;
            assert(-(m as int) * (SCALE as int) <= (self.y as int) * (SCALE as int)
                <= (m as int) * (SCALE as int)) by (nonlinear_arith)
                requires
                    -(m as int) <= self.y as int <= m as int,
                    SCALE >= 1;
            lemma_trunc_div_bound(self.x * SCALE, m as int, SCALE as int);
            lemma_trunc_div_bound(self.y * SCALE, m as int, SCALE as int);
        }
        Ok(Vec2d { x: qx as i64, y: qy as i64 })
    }
}

/// Normalizing keeps the length close to one world unit: for a vector at
/// least one world unit long, the floor magnitude of its normalization lies
/// within three subunits of `SCALE`, that is within three millionths of one.
/// Shorter vectors are excluded: their floor norm is too coarse a divisor.
pub proof fn lemma_normalize_magnitude(v: Vec2d)
    requires
        v.in_range(VEC_LIMIT as int),
        sqrt_floor(v.norm_sq()) >= SCALE,
    ensures
        ({
            let m = sqrt_floor(v.norm_sq());
            let nx = trunc_div(v.x * SCALE, m);
            let ny = trunc_div(v.y * SCALE, m);
            SCALE - 3 <= sqrt_floor(nx * nx + ny * ny) <= SCALE + 3
        }),
{
    let s = SCALE as int;
    let ns = v.norm_sq();
    assert(ns >= 0) by (nonlinear_arith)
        requires ns == v.x * v.x + v.y * v.y;
    crate::intmath::lemma_sqrt_floor_exists(ns);
    let m = sqrt_floor(ns);
    lemma_component_le_norm(v.x as int, v.y as int, m);
    let nx = trunc_div(v.x * s, m);
    let ny = trunc_div(v.y * s, m);
    crate::intmath::lemma_trunc_div_decompose(v.x * s, m);
    crate::intmath::lemma_trunc_div_decompose(v.y * s, m);
    let rx = v.x * s - nx * m;
    let ry = v.y * s - ny * m;
    let cross = v.x * rx + v.y * ry;
    let nsn = nx * nx + ny * ny;
    assert(-2 * (m * m) <= cross <= 2 * (m * m)) by (nonlinear_arith)
        requires
            cross == v.x * rx + v.y * ry,
            -m <= v.x <= m,
            -m <= v.y <= m,
            -m < rx < m,
            -m < ry < m;
    assert(0 <= rx * rx + ry * ry <= 2 * (m * m)) by (nonlinear_arith)
        requires
            -m < rx < m,
            -m < ry < m,
            m >= 1;
    assert((nx * m) * (nx * m) + (ny * m) * (ny * m) == nsn * (m * m)) by (nonlinear_arith)
        requires
            nsn == nx * nx + ny * ny;
    assert((v.x * s - rx) * (v.x * s - rx) == s * s * (v.x * v.x) - 2 * s * (v.x * rx) + rx * rx)
        by (nonlinear_arith);
    assert((v.y * s - ry) * (v.y * s - ry) == s * s * (v.y * v.y) - 2 * s * (v.y * ry) + ry * ry)
        by (nonlinear_arith);
    assert(s * s * ns == s * s * (v.x * v.x) + s * s * (v.y * v.y)) by (nonlinear_arith)
        requires ns == v.x * v.x + v.y * v.y;
    assert(2 * s * cross == 2 * s * (v.x * rx) + 2 * s * (v.y * ry)) by (nonlinear_arith)
        requires cross == v.x * rx + v.y * ry;
    assert(nx * m == v.x * s - rx && ny * m == v.y * s - ry);
    assert(nsn * (m * m) == s * s * ns - 2 * s * cross + (rx * rx + ry * ry));
    assert(s * s * ns >= s * s * (m * m)) by (nonlinear_arith)
        requires
            ns >= m * m,
            s >= 1;
    assert(s * s * ns <= s * s * (m * m) + 2 * (s * s * m)) by (nonlinear_arith)
        requires
            ns < (m + 1) * (m + 1),
            s >= 1,
            m >= 1;
    assert(2 * (s * s * m) <= 2 * (s * (m * m))) by (nonlinear_arith)
        requires
            m >= s,
            s >= 1;
    assert(nsn * (m * m) >= (s * s - 4 * s - 2) * (m * m)) by (nonlinear_arith)
        requires
            nsn * (m * m) == s * s * ns - 2 * s * cross + (rx * rx + ry * ry),
            s * s * ns >= s * s * (m * m),
            -2 * (m * m) <= cross <= 2 * (m * m),
            0 <= rx * rx + ry * ry,
            s >= 1;
    assert(nsn * (m * m) <= (s * s + 6 * s + 2) * (m * m)) by (nonlinear_arith)
        requires
            nsn * (m * m) == s * s * ns - 2 * s * cross + (rx * rx + ry * ry),
            s * s * ns <= s * s * (m * m) + 2 * (s * (m * m)),
            -2 * (m * m) <= cross <= 2 * (m * m),
            rx * rx + ry * ry <= 2 * (m * m),
            s >= 1;
    assert(s * s - 4 * s - 2 <= nsn <= s * s + 6 * s + 2) by (nonlinear_arith)
        requires
            nsn * (m * m) >= (s * s - 4 * s - 2) * (m * m),
            nsn * (m * m) <= (s * s + 6 * s + 2) * (m * m),
            m >= 1;
    crate::intmath::lemma_sqrt_floor_exists(nsn);
    let root = sqrt_floor(nsn);
    assert(root <= s + 3) by (nonlinear_arith)
        requires
            is_sqrt_floor(nsn, root),
            nsn <= s * s + 6 * s + 2,
            s >= 9;
    assert(root >= s - 3) by (nonlinear_arith)
        requires
            is_sqrt_floor(nsn, root),
            nsn >= s * s - 4 * s - 2,
            s >= 9;
}

/// No component exceeds the floor of the Euclidean norm.
proof fn lemma_component_le_norm(x: int, y: int, m: int)
    by (nonlinear_arith)
    requires
        is_sqrt_floor(x * x + y * y, m),
    ensures
        -m <= x <= m,
        -m <= y <= m,
{
}

} // verus!
