//! Linear algebra of the simulation: points and displacements in three
//! dimensions, with the pointwise operations the rest of the library needs.
//!
//! Components are binary64 bit patterns (see [`crate::scalar`]); each
//! operation states its exact componentwise result.

use vstd::prelude::*;

use crate::scalar::{
    abs_bits, add_bits, add_scalar, div_bits, div_scalar, mul_bits, mul_scalar, sub_bits,
    sub_scalar,
};
use crate::parameters::SC_ZERO;
use crate::sqrt::{sqrt_bits, sqrt_scalar};
use crate::SimError;

verus! {

/// A point in 3D space.
#[derive(Debug, Clone, Copy, PartialEq, Eq, Structural)]
pub struct Point3 {
    /// x coordinate
    pub x: u64,
    /// y coordinate
    pub y: u64,
    /// z coordinate
    pub z: u64,
}

/// A displacement in 3D space.
#[derive(Debug, Clone, Copy, PartialEq, Eq, Structural)]
pub struct Vector3 {
    /// x component
    pub x: u64,
    /// y component
    pub y: u64,
    /// z component
    pub z: u64,
}

/// The componentwise difference of two points.
pub open spec fn spec_delta(p: Point3, q: Point3) -> Vector3 {
    Vector3 { x: sub_bits(p.x, q.x), y: sub_bits(p.y, q.y), z: sub_bits(p.z, q.z) }
}

/// A point translated by a displacement.
pub open spec fn spec_translate(p: Point3, v: Vector3) -> Point3 {
    Point3 { x: add_bits(p.x, v.x), y: add_bits(p.y, v.y), z: add_bits(p.z, v.z) }
}

/// A point translated back by a displacement.
pub open spec fn spec_translate_back(p: Point3, v: Vector3) -> Point3 {
    Point3 { x: sub_bits(p.x, v.x), y: sub_bits(p.y, v.y), z: sub_bits(p.z, v.z) }
}

/// The componentwise sum of two displacements.
pub open spec fn spec_plus(v: Vector3, w: Vector3) -> Vector3 {
    Vector3 { x: add_bits(v.x, w.x), y: add_bits(v.y, w.y), z: add_bits(v.z, w.z) }
}

/// The componentwise difference of two displacements.
pub open spec fn spec_minus(v: Vector3, w: Vector3) -> Vector3 {
    Vector3 { x: sub_bits(v.x, w.x), y: sub_bits(v.y, w.y), z: sub_bits(v.z, w.z) }
}

/// A displacement with every component multiplied by a scalar.
pub open spec fn spec_scaled(v: Vector3, k: u64) -> Vector3 {
    Vector3 { x: mul_bits(v.x, k), y: mul_bits(v.y, k), z: mul_bits(v.z, k) }
}

/// A displacement with every component divided by a scalar.
pub open spec fn spec_divided(v: Vector3, k: u64) -> Vector3 {
    Vector3 { x: div_bits(v.x, k), y: div_bits(v.y, k), z: div_bits(v.z, k) }
}

/// The squared norm of a displacement: x·x + y·y + z·z, summed left to
/// right.
pub open spec fn spec_norm_squared(v: Vector3) -> u64 {
    add_bits(add_bits(mul_bits(v.x, v.x), mul_bits(v.y, v.y)), mul_bits(v.z, v.z))
}

/// The squared distance between two points: the squared norm of their
/// difference.
pub open spec fn spec_distance_squared(p: Point3, q: Point3) -> u64 {
    spec_norm_squared(spec_delta(p, q))
}

impl Point3 {
    /// Create a point from the given x y z coordinates.
    pub fn from(x: u64, y: u64, z: u64) -> (r: Self)
        ensures
            r == (Point3 { x, y, z }),
    {
        Point3 { x, y, z }
    }

    /// The x coordinate of the point.
    pub fn x(&self) -> (r: u64)
        ensures
            r == self.x,
    {
        self.x
    }

    /// The y coordinate of the point.
    pub fn y(&self) -> (r: u64)
        ensures
            r == self.y,
    {
        self.y
    }

    /// The z coordinate of the point.
    pub fn z(&self) -> (r: u64)
        ensures
            r == self.z,
    {
        self.z
    }

    /// Create a point at the origin (0, 0, 0).
    pub fn origin() -> (r: Self)
        ensures
            r == (Point3 { x: SC_ZERO, y: SC_ZERO, z: SC_ZERO }),
    {
        Point3 { x: SC_ZERO, y: SC_ZERO, z: SC_ZERO }
    }

    /// The displacement from another point to this one (this minus other).
    pub fn delta(&self, rhs: &Point3) -> (r: Vector3)
        ensures
            r == spec_delta(*self, *rhs),
    {
        Vector3 {
            x: sub_scalar(self.x, rhs.x),
            y: sub_scalar(self.y, rhs.y),
            z: sub_scalar(self.z, rhs.z),
        }
    }

    /// This point translated by a displacement.
    pub fn translate(&self, v: &Vector3) -> (r: Point3)
        ensures
            r == spec_translate(*self, *v),
    {
        Point3 {
            x: add_scalar(self.x, v.x),
            y: add_scalar(self.y, v.y),
            z: add_scalar(self.z, v.z),
        }
    }

    /// This point translated back by a displacement.
    pub fn translate_back(&self, v: &Vector3) -> (r: Point3)
        ensures
            r == spec_translate_back(*self, *v),
    {
        Point3 {
            x: sub_scalar(self.x, v.x),
            y: sub_scalar(self.y, v.y),
            z: sub_scalar(self.z, v.z),
        }
    }

    /// Compute the distance to another point, squared. The result is the
    /// squared norm of the difference, so the two agree by construction.
    pub fn distance_to_squared(&self, rhs: &Point3) -> (r: u64)
        ensures
            r == spec_distance_squared(*self, *rhs),
            r == spec_norm_squared(spec_delta(*self, *rhs)),
    {
        let d = self.delta(rhs);
        d.norm_squared()
    }

    /// Compute the distance to another point: the square root of the
    /// squared distance, rounded to nearest.
    pub fn distance_to(&self, rhs: &Point3) -> (r: u64)
        ensures
            r == sqrt_bits(spec_distance_squared(*self, *rhs)),
    {
        sqrt_scalar(self.distance_to_squared(rhs))
    }
}

impl Vector3 {
    /// Create a vector from the given x y z components.
    pub fn from(x: u64, y: u64, z: u64) -> (r: Self)
        ensures
            r == (Vector3 { x, y, z }),
    {
        Vector3 { x, y, z }
    }

    /// The x component of the vector.
    pub fn x(&self) -> (r: u64)
        ensures
            r == self.x,
    {
        self.x
    }

    /// The y component of the vector.
    pub fn y(&self) -> (r: u64)
        ensures
            r == self.y,
    {
        self.y
    }

    /// The z component of the vector.
    pub fn z(&self) -> (r: u64)
        ensures
            r == self.z,
    {
        self.z
    }

    /// Create a vector of norm 0.
    pub fn zero() -> (r: Self)
        ensures
            r == (Vector3 { x: SC_ZERO, y: SC_ZERO, z: SC_ZERO }),
    {
        Vector3 { x: SC_ZERO, y: SC_ZERO, z: SC_ZERO }
    }

    /// The componentwise sum with another vector.
    pub fn plus(&self, rhs: &Vector3) -> (r: Vector3)
        ensures
            r == spec_plus(*self, *rhs),
    {
        Vector3 {
            x: add_scalar(self.x, rhs.x),
            y: add_scalar(self.y, rhs.y),
            z: add_scalar(self.z, rhs.z),
        }
    }

    /// The componentwise difference with another vector.
    pub fn minus(&self, rhs: &Vector3) -> (r: Vector3)
        ensures
            r == spec_minus(*self, *rhs),
    {
        Vector3 {
            x: sub_scalar(self.x, rhs.x),
            y: sub_scalar(self.y, rhs.y),
            z: sub_scalar(self.z, rhs.z),
        }
    }

    /// This vector with every component multiplied by a scalar.
    pub fn scaled(&self, k: u64) -> (r: Vector3)
        ensures
            r == spec_scaled(*self, k),
    {
        Vector3 {
            x: mul_scalar(self.x, k),
            y: mul_scalar(self.y, k),
            z: mul_scalar(self.z, k),
        }
    }

    /// This vector with every component divided by a scalar; a zero
    /// divisor, of either sign, is refused.
    pub fn divided(&self, k: u64) -> (r: Result<Vector3, SimError>)
        ensures
            r.is_ok() <==> abs_bits(k) != 0,
            abs_bits(k) != 0 ==> r == Ok::<Vector3, SimError>(spec_divided(*self, k)),
            abs_bits(k) == 0 ==> r == Err::<Vector3, SimError>(SimError::DivisionByZero),
    {
        if (k & 0x7FFF_FFFF_FFFF_FFFF) == 0 {
            Err(SimError::DivisionByZero)
        } else {
            Ok(Vector3 {
                x: div_scalar(self.x, k),
                y: div_scalar(self.y, k),
                z: div_scalar(self.z, k),
            })
        }
    }

    /// Compute the squared norm of the vector.
    pub fn norm_squared(&self) -> (r: u64)
        ensures
            r == spec_norm_squared(*self),
    {
        let xx = mul_scalar(self.x, self.x);
        let yy = mul_scalar(self.y, self.y);
        let zz = mul_scalar(self.z, self.z);
        add_scalar(add_scalar(xx, yy), zz)
    }

    /// Compute the norm of the vector: the square root of the squared
    /// norm, rounded to nearest.
    pub fn norm(&self) -> (r: u64)
        ensures
            r == sqrt_bits(spec_norm_squared(*self)),
    {
        sqrt_scalar(self.norm_squared())
    }
}

} // verus!
