//! 3D vector algebra over fixed-point scalars.
//!
//! Every operation is specified exactly: products and quotients are rounded
//! toward zero by [`tdiv`], and the raw (unrounded) bilinear forms
//! [`dot_raw`], [`cross_raw_x`] and friends carry the algebraic laws.

use vstd::prelude::*;
use crate::fixed::{
    SCALE, in_i64, tdiv, abs1, fmul_spec, fdiv_spec, isqrt_spec, fmul, fdiv, isqrt_u128,
    lemma_isqrt_spec, lemma_isqrt_unique, lemma_tdiv_neg, lemma_tdiv_mul_cancel,
};

verus! {

/// A vector of three fixed-point components.
///
/// The value type is plain data, copied freely. No alignment padding is
/// carried: layout is left to the compiler, so equality and arithmetic
/// range over exactly the three components.
#[derive(Clone, Copy, Debug, PartialEq, Eq, Structural)]
pub struct Vector3 {
    pub x: i64,
    pub y: i64,
    pub z: i64,
}

/// The unrounded scalar product, at scale SCALE^2.
pub open spec fn dot_raw(a: Vector3, b: Vector3) -> int {
    a.x * b.x + a.y * b.y + a.z * b.z
}

/// The unrounded squared magnitude, at scale SCALE^2.
pub open spec fn sq_raw(a: Vector3) -> int {
    dot_raw(a, a)
}

/// The unrounded x component of the right-handed vector product.
pub open spec fn cross_raw_x(a: Vector3, b: Vector3) -> int {
    a.y * b.z - a.z * b.y
}

/// The unrounded y component of the right-handed vector product.
pub open spec fn cross_raw_y(a: Vector3, b: Vector3) -> int {
    a.z * b.x - a.x * b.z
}

/// The unrounded z component of the right-handed vector product.
pub open spec fn cross_raw_z(a: Vector3, b: Vector3) -> int {
    a.x * b.y - a.y * b.x
}

/// The magnitude: integer square root of the raw square, back at scale SCALE.
pub open spec fn mag_spec(a: Vector3) -> int {
    isqrt_spec(sq_raw(a))
}

/// The squared magnitude scaled back down to a fixed-point scalar.
pub open spec fn sqmag_spec(a: Vector3) -> int {
    sq_raw(a) / (SCALE as int)
}

/// The normalized vector, each component rounded toward zero.
pub open spec fn norm_spec(a: Vector3) -> Vector3 {
    Vector3 {
        x: tdiv(a.x * SCALE, mag_spec(a)) as i64,
        y: tdiv(a.y * SCALE, mag_spec(a)) as i64,
        z: tdiv(a.z * SCALE, mag_spec(a)) as i64,
    }
}

/// The vector product, each component rounded toward zero.
pub open spec fn cross_spec(a: Vector3, b: Vector3) -> Vector3 {
    Vector3 {
        x: tdiv(cross_raw_x(a, b), SCALE as int) as i64,
        y: tdiv(cross_raw_y(a, b), SCALE as int) as i64,
        z: tdiv(cross_raw_z(a, b), SCALE as int) as i64,
    }
}

/// The vector `base + other * k`, every product rounded toward zero.
pub open spec fn add_scaled_spec(base: Vector3, other: Vector3, k: int) -> Vector3 {
    Vector3 {
        x: (base.x + fmul_spec(other.x as int, k)) as i64,
        y: (base.y + fmul_spec(other.y as int, k)) as i64,
        z: (base.z + fmul_spec(other.z as int, k)) as i64,
    }
}

/// Every component of `base + other * k` stays within the scalar range.
pub open spec fn add_scaled_fits(base: Vector3, other: Vector3, k: int) -> bool {
    &&& in_i64(fmul_spec(other.x as int, k))
    &&& in_i64(fmul_spec(other.y as int, k))
    &&& in_i64(fmul_spec(other.z as int, k))
    &&& in_i64(base.x + fmul_spec(other.x as int, k))
    &&& in_i64(base.y + fmul_spec(other.y as int, k))
    &&& in_i64(base.z + fmul_spec(other.z as int, k))
}

/// The vector scaled by `k`, every product rounded toward zero.
pub open spec fn scale_spec(v: Vector3, k: int) -> Vector3 {
    Vector3 {
        x: fmul_spec(v.x as int, k) as i64,
        y: fmul_spec(v.y as int, k) as i64,
        z: fmul_spec(v.z as int, k) as i64,
    }
}

/// Every component of `v * k` stays within the scalar range.
pub open spec fn scale_fits(v: Vector3, k: int) -> bool {
    &&& in_i64(fmul_spec(v.x as int, k))
    &&& in_i64(fmul_spec(v.y as int, k))
    &&& in_i64(fmul_spec(v.z as int, k))
}

/// The component-wise sum.
pub open spec fn add_spec(a: Vector3, b: Vector3) -> Vector3 {
    Vector3 { x: (a.x + b.x) as i64, y: (a.y + b.y) as i64, z: (a.z + b.z) as i64 }
}

/// Every component of the sum stays within the scalar range.
pub open spec fn add_fits(a: Vector3, b: Vector3) -> bool {
    in_i64(a.x + b.x) && in_i64(a.y + b.y) && in_i64(a.z + b.z)
}

/// The component-wise difference.
pub open spec fn sub_spec(a: Vector3, b: Vector3) -> Vector3 {
    Vector3 { x: (a.x - b.x) as i64, y: (a.y - b.y) as i64, z: (a.z - b.z) as i64 }
}

/// Every component of the difference stays within the scalar range.
pub open spec fn sub_fits(a: Vector3, b: Vector3) -> bool {
    in_i64(a.x - b.x) && in_i64(a.y - b.y) && in_i64(a.z - b.z)
}

/// Attempting to build an orthonormal basis from collinear vectors is the
/// one recoverable geometric error of the vector component.
#[derive(Clone, Copy, Debug, PartialEq, Eq, Structural)]
pub enum BasisError {
    ParallelVectors,
}

impl Default for Vector3 {
    /// The zero vector.
    fn default() -> (r: Self)
        ensures
            r == (Vector3 { x: 0, y: 0, z: 0 }),
    {
        Vector3 { x: 0, y: 0, z: 0 }
    }
}

impl Vector3 {
    pub fn new(x: i64, y: i64, z: i64) -> (r: Self)
        ensures
            r == (Vector3 { x, y, z }),
    {
        Vector3 { x, y, z }
    }

    /// Flips the sign of each component in place.
    pub fn invert(&mut self)
        requires
            old(self).x > i64::MIN,
            old(self).y > i64::MIN,
            old(self).z > i64::MIN,
        ensures
            final(self).x == -old(self).x,
            final(self).y == -old(self).y,
            final(self).z == -old(self).z,
    {
        self.x = -self.x;
        self.y = -self.y;
        self.z = -self.z;
    }

    /// Overwrites this vector with the given one.
    pub fn update_by_vector3(&mut self, other: Vector3)
        ensures
            *final(self) == other,
    {
        self.x = other.x;
        self.y = other.y;
        self.z = other.z;
    }

    /// The Euclidean norm, rounded down to the fixed-point grid.
    pub fn magnitude(&self) -> (r: i64)
        requires
            sq_raw(*self) < 0x4000_0000_0000_0000_0000_0000_0000_0000,
        ensures
            r as int == mag_spec(*self),
            r >= 0,
    {
        proof {
            lemma_sq_parts(*self);
        }
        let px: u128 = ((self.x as i128) * (self.x as i128)) as u128;
        let py: u128 = ((self.y as i128) * (self.y as i128)) as u128;
        let pz: u128 = ((self.z as i128) * (self.z as i128)) as u128;
        let q: u128 = px + py + pz;
        let r = isqrt_u128(q);
        proof {
            lemma_isqrt_spec(q as int);
            assert(isqrt_spec(q as int) < 0x8000_0000_0000_0000) by (nonlinear_arith)
                requires
                    isqrt_spec(q as int) >= 0,
                    isqrt_spec(q as int) * isqrt_spec(q as int) <= q as int,
                    (q as int) < 0x4000_0000_0000_0000_0000_0000_0000_0000,
            ;
        }
        r as i64
    }

    /// The squared magnitude, as a fixed-point scalar: the sum of the
    /// squares of the components, scaled back down.
    pub fn square_magnitude(&self) -> (r: i64)
        requires
            sqmag_spec(*self) <= i64::MAX,
        ensures
            r as int == sqmag_spec(*self),
            r >= 0,
    {
        proof {
            lemma_sq_parts(*self);
        }
        let px: u128 = ((self.x as i128) * (self.x as i128)) as u128;
        let py: u128 = ((self.y as i128) * (self.y as i128)) as u128;
        let pz: u128 = ((self.z as i128) * (self.z as i128)) as u128;
        let q: u128 = (px + py + pz) / (SCALE as u128);
        q as i64
    }

    /// The squared magnitude, through an exclusive reference; the vector is
    /// not changed.
    pub fn square_magnitude_mut(&mut self) -> (r: i64)
        requires
            sqmag_spec(*old(self)) <= i64::MAX,
        ensures
            r as int == sqmag_spec(*old(self)),
            r >= 0,
            *final(self) == *old(self),
    {
        self.square_magnitude()
    }

    /// Divides every component by the magnitude, in place. The zero vector
    /// has no direction: callers must guard against it.
    pub fn normalize(&mut self)
        requires
            sq_raw(*old(self)) > 0,
            sq_raw(*old(self)) < 0x4000_0000_0000_0000_0000_0000_0000_0000,
        ensures
            *final(self) == norm_spec(*old(self)),
            abs1(final(self).x as int) <= SCALE,
            abs1(final(self).y as int) <= SCALE,
            abs1(final(self).z as int) <= SCALE,
    {
        let ghost v0 = *self;
        let m = self.magnitude();
        proof {
            lemma_isqrt_spec(sq_raw(v0));
            if m == 0 {
                assert(sq_raw(v0) < (0 + 1) * (0 + 1)) by (nonlinear_arith)
                    requires mag_spec(v0) == 0, sq_raw(v0) < (mag_spec(v0) + 1) * (mag_spec(v0) + 1),
                ;
            }
            lemma_component_le_mag(v0);
            lemma_norm_fits(v0.x as int, m as int);
            lemma_norm_fits(v0.y as int, m as int);
            lemma_norm_fits(v0.z as int, m as int);
        }
        self.x = fdiv(self.x, m);
        self.y = fdiv(self.y, m);
        self.z = fdiv(self.z, m);
    }

    /// The component-wise product, as a new vector.
    pub fn component_product(&self, other: &Vector3) -> (r: Self)
        requires
            in_i64(fmul_spec(self.x as int, other.x as int)),
            in_i64(fmul_spec(self.y as int, other.y as int)),
            in_i64(fmul_spec(self.z as int, other.z as int)),
        ensures
            r.x as int == fmul_spec(self.x as int, other.x as int),
            r.y as int == fmul_spec(self.y as int, other.y as int),
            r.z as int == fmul_spec(self.z as int, other.z as int),
    {
        Vector3 { x: fmul(self.x, other.x), y: fmul(self.y, other.y), z: fmul(self.z, other.z) }
    }

    /// The component-wise product, in place.
    pub fn component_product_update(&mut self, other: &Vector3)
        requires
            in_i64(fmul_spec(old(self).x as int, other.x as int)),
            in_i64(fmul_spec(old(self).y as int, other.y as int)),
            in_i64(fmul_spec(old(self).z as int, other.z as int)),
        ensures
            final(self).x as int == fmul_spec(old(self).x as int, other.x as int),
            final(self).y as int == fmul_spec(old(self).y as int, other.y as int),
            final(self).z as int == fmul_spec(old(self).z as int, other.z as int),
    {
        self.x = fmul(self.x, other.x);
        self.y = fmul(self.y, other.y);
        self.z = fmul(self.z, other.z);
    }

    /// The scalar (dot) product of two vectors.
    pub fn scalar_product(&self, other: &Vector3) -> (r: i64)
        requires
            abs1(self.x as int * other.x as int) + abs1(self.y as int * other.y as int)
                + abs1(self.z as int * other.z as int) < i128::MAX,
            in_i64(tdiv(dot_raw(*self, *other), SCALE as int)),
        ensures
            r as int == tdiv(dot_raw(*self, *other), SCALE as int),
    {
        proof {
            lemma_prod_bounds(self.x as int, other.x as int);
            lemma_prod_bounds(self.y as int, other.y as int);
            lemma_prod_bounds(self.z as int, other.z as int);
        }
        let px: i128 = (self.x as i128) * (other.x as i128);
        let py: i128 = (self.y as i128) * (other.y as i128);
        let pz: i128 = (self.z as i128) * (other.z as i128);
        let s: i128 = px + py + pz;
        let q = crate::fixed::div_trunc(s, SCALE as i128);
        q as i64
    }

    /// The right-handed vector (cross) product: `self x other`.
    pub fn vector_product(self, other: &Vector3) -> (r: Vector3)
        requires
            in_i64(tdiv(cross_raw_x(self, *other), SCALE as int)),
            in_i64(tdiv(cross_raw_y(self, *other), SCALE as int)),
            in_i64(tdiv(cross_raw_z(self, *other), SCALE as int)),
        ensures
            r == cross_spec(self, *other),
    {
        proof {
            lemma_prod_bounds(self.y as int, other.z as int);
            lemma_prod_bounds(self.z as int, other.y as int);
            lemma_prod_bounds(self.z as int, other.x as int);
            lemma_prod_bounds(self.x as int, other.z as int);
            lemma_prod_bounds(self.x as int, other.y as int);
            lemma_prod_bounds(self.y as int, other.x as int);
        }
        let cx: i128 = (self.y as i128) * (other.z as i128) - (self.z as i128) * (other.y as i128);
        let cy: i128 = (self.z as i128) * (other.x as i128) - (self.x as i128) * (other.z as i128);
        let cz: i128 = (self.x as i128) * (other.y as i128) - (self.y as i128) * (other.x as i128);
        let rx = crate::fixed::div_trunc(cx, SCALE as i128);
        let ry = crate::fixed::div_trunc(cy, SCALE as i128);
        let rz = crate::fixed::div_trunc(cz, SCALE as i128);
        Vector3 { x: rx as i64, y: ry as i64, z: rz as i64 }
    }

    /// The vector scaled by a fixed-point factor, as a new vector.
    pub fn mul_scalar(self, k: i64) -> (r: Vector3)
        requires
            in_i64(fmul_spec(self.x as int, k as int)),
            in_i64(fmul_spec(self.y as int, k as int)),
            in_i64(fmul_spec(self.z as int, k as int)),
        ensures
            r.x as int == fmul_spec(self.x as int, k as int),
            r.y as int == fmul_spec(self.y as int, k as int),
            r.z as int == fmul_spec(self.z as int, k as int),
    {
        Vector3 { x: fmul(self.x, k), y: fmul(self.y, k), z: fmul(self.z, k) }
    }

    /// The vector divided by a fixed-point factor, as a new vector.
    /// Division by zero has no meaning: callers must guard against it.
    pub fn div_scalar(self, k: i64) -> (r: Vector3)
        requires
            k != 0,
            in_i64(fdiv_spec(self.x as int, k as int)),
            in_i64(fdiv_spec(self.y as int, k as int)),
            in_i64(fdiv_spec(self.z as int, k as int)),
        ensures
            r.x as int == fdiv_spec(self.x as int, k as int),
            r.y as int == fdiv_spec(self.y as int, k as int),
            r.z as int == fdiv_spec(self.z as int, k as int),
    {
        Vector3 { x: fdiv(self.x, k), y: fdiv(self.y, k), z: fdiv(self.z, k) }
    }

    /// The vector with a scalar added to every component.
    pub fn add_scalar(self, k: i64) -> (r: Vector3)
        requires
            in_i64(self.x + k),
            in_i64(self.y + k),
            in_i64(self.z + k),
        ensures
            r.x == self.x + k,
            r.y == self.y + k,
            r.z == self.z + k,
    {
        Vector3 { x: self.x + k, y: self.y + k, z: self.z + k }
    }

    /// The vector with a scalar subtracted from every component.
    pub fn sub_scalar(self, k: i64) -> (r: Vector3)
        requires
            in_i64(self.x - k),
            in_i64(self.y - k),
            in_i64(self.z - k),
        ensures
            r.x == self.x - k,
            r.y == self.y - k,
            r.z == self.z - k,
    {
        Vector3 { x: self.x - k, y: self.y - k, z: self.z - k }
    }

    /// The sum of two vectors.
    pub fn add_vector(self, other: &Vector3) -> (r: Vector3)
        requires
            in_i64(self.x + other.x),
            in_i64(self.y + other.y),
            in_i64(self.z + other.z),
        ensures
            r.x == self.x + other.x,
            r.y == self.y + other.y,
            r.z == self.z + other.z,
    {
        Vector3 { x: self.x + other.x, y: self.y + other.y, z: self.z + other.z }
    }

    /// The difference of two vectors.
    pub fn sub_vector(self, other: &Vector3) -> (r: Vector3)
        requires
            in_i64(self.x - other.x),
            in_i64(self.y - other.y),
            in_i64(self.z - other.z),
        ensures
            r.x == self.x - other.x,
            r.y == self.y - other.y,
            r.z == self.z - other.z,
    {
        Vector3 { x: self.x - other.x, y: self.y - other.y, z: self.z - other.z }
    }

    /// `self += other * scale`: the core update primitive of integration.
    pub fn add_scaled_vector(&mut self, other: &Vector3, scale: i64)
        requires
            in_i64(fmul_spec(other.x as int, scale as int)),
            in_i64(fmul_spec(other.y as int, scale as int)),
            in_i64(fmul_spec(other.z as int, scale as int)),
            in_i64(old(self).x + fmul_spec(other.x as int, scale as int)),
            in_i64(old(self).y + fmul_spec(other.y as int, scale as int)),
            in_i64(old(self).z + fmul_spec(other.z as int, scale as int)),
        ensures
            final(self).x as int == old(self).x + fmul_spec(other.x as int, scale as int),
            final(self).y as int == old(self).y + fmul_spec(other.y as int, scale as int),
            final(self).z as int == old(self).z + fmul_spec(other.z as int, scale as int),
    {
        self.x = self.x + fmul(other.x, scale);
        self.y = self.y + fmul(other.y, scale);
        self.z = self.z + fmul(other.z, scale);
    }
}

/// Each squared component is nonnegative and no larger than the raw square.
proof fn lemma_sq_parts(v: Vector3)
    ensures
        0 <= v.x * v.x,
        0 <= v.y * v.y,
        0 <= v.z * v.z,
        sq_raw(v) == v.x * v.x + v.y * v.y + v.z * v.z,
        v.x * v.x <= sq_raw(v),
        v.y * v.y <= sq_raw(v),
        v.z * v.z <= sq_raw(v),
{
    assert(0 <= v.x * v.x && 0 <= v.y * v.y && 0 <= v.z * v.z) by (nonlinear_arith);
}

/// The product of two `i64` values lies strictly inside the `i128` range.
proof fn lemma_prod_bounds(a: int, b: int)
    requires
        i64::MIN <= a <= i64::MAX,
        i64::MIN <= b <= i64::MAX,
    ensures
        -0x3fff_ffff_ffff_ffff_8000_0000_0000_0000 <= a * b
            <= 0x4000_0000_0000_0000_0000_0000_0000_0000,
        abs1(a * b) <= 0x4000_0000_0000_0000_0000_0000_0000_0000,
{
    assert(-0x3fff_ffff_ffff_ffff_8000_0000_0000_0000 <= a * b
        <= 0x4000_0000_0000_0000_0000_0000_0000_0000) by (nonlinear_arith)
        requires i64::MIN <= a <= i64::MAX, i64::MIN <= b <= i64::MAX,
    ;
}

/// No component of a vector exceeds the vector's magnitude.
proof fn lemma_component_le_mag(v: Vector3)
    requires
        sq_raw(v) >= 0,
    ensures
        abs1(v.x as int) <= mag_spec(v),
        abs1(v.y as int) <= mag_spec(v),
        abs1(v.z as int) <= mag_spec(v),
{
    lemma_isqrt_spec(sq_raw(v));
    let m = mag_spec(v);
    lemma_sq_parts(v);
    assert(abs1(v.x as int) <= m && abs1(v.y as int) <= m && abs1(v.z as int) <= m)
        by (nonlinear_arith)
        requires
            m >= 0,
            v.x * v.x <= sq_raw(v),
            v.y * v.y <= sq_raw(v),
            v.z * v.z <= sq_raw(v),
            sq_raw(v) < (m + 1) * (m + 1),
    ;
}

/// A component no larger than the divisor scales into the fixed-point range.
proof fn lemma_norm_fits(x: int, m: int)
    requires
        m > 0,
        abs1(x) <= m,
    ensures
        in_i64(fdiv_spec(x, m)),
        abs1(fdiv_spec(x, m)) <= SCALE,
{
    assert(abs1(x * SCALE) <= m * SCALE) by (nonlinear_arith)
        requires abs1(x) <= m, m > 0, SCALE == 65536i64,
    ;
    vstd::arithmetic::div_mod::lemma_multiply_divide_le(abs1(x * SCALE), m, SCALE as int);
    vstd::arithmetic::div_mod::lemma_div_pos_is_pos(abs1(x * SCALE), m);
}

/// A vector's magnitude is zero exactly when the vector is zero.
pub proof fn lemma_mag_zero(v: Vector3)
    ensures
        sq_raw(v) >= 0,
        (mag_spec(v) == 0) == (sq_raw(v) == 0),
{
    lemma_sq_parts(v);
    lemma_isqrt_spec(sq_raw(v));
    if sq_raw(v) == 0 {
        assert(isqrt_spec(0) == 0);
    } else if mag_spec(v) == 0 {
        assert(sq_raw(v) < (0 + 1) * (0 + 1)) by (nonlinear_arith)
            requires
                mag_spec(v) == 0,
                sq_raw(v) < (mag_spec(v) + 1) * (mag_spec(v) + 1),
        ;
    }
}

/// The scalar product is symmetric, rounding included.
pub proof fn lemma_scalar_product_commutes(a: Vector3, b: Vector3)
    ensures
        dot_raw(a, b) == dot_raw(b, a),
        tdiv(dot_raw(a, b), SCALE as int) == tdiv(dot_raw(b, a), SCALE as int),
{
    assert(dot_raw(a, b) == dot_raw(b, a)) by (nonlinear_arith);
}

/// The vector product is anti-commutative, rounding included: swapping the
/// operands negates every component.
pub proof fn lemma_vector_product_antisymmetric(a: Vector3, b: Vector3)
    ensures
        cross_raw_x(a, b) == -cross_raw_x(b, a),
        cross_raw_y(a, b) == -cross_raw_y(b, a),
        cross_raw_z(a, b) == -cross_raw_z(b, a),
        tdiv(cross_raw_x(a, b), SCALE as int) == -tdiv(cross_raw_x(b, a), SCALE as int),
        tdiv(cross_raw_y(a, b), SCALE as int) == -tdiv(cross_raw_y(b, a), SCALE as int),
        tdiv(cross_raw_z(a, b), SCALE as int) == -tdiv(cross_raw_z(b, a), SCALE as int),
{
    assert(cross_raw_x(a, b) == -cross_raw_x(b, a) && cross_raw_y(a, b) == -cross_raw_y(b, a)
        && cross_raw_z(a, b) == -cross_raw_z(b, a)) by (nonlinear_arith);
    lemma_tdiv_neg(cross_raw_x(b, a), SCALE as int);
    lemma_tdiv_neg(cross_raw_y(b, a), SCALE as int);
    lemma_tdiv_neg(cross_raw_z(b, a), SCALE as int);
}

/// Lagrange's identity: the squared magnitude of the vector product equals
/// the product of the squared magnitudes minus the squared scalar product.
/// It holds exactly of the raw bilinear forms, before any rounding.
/// The square of a difference, expanded.
proof fn lemma_sq_diff(u: int, v: int)
    ensures
        (u - v) * (u - v) == u * u - 2 * (u * v) + v * v,
{
    assert((u - v) * (u - v) == u * u - 2 * (u * v) + v * v) by (nonlinear_arith);
}

/// The square of a three-term sum, expanded.
proof fn lemma_sq_sum3(p: int, q: int, r: int)
    ensures
        (p + q + r) * (p + q + r) == p * p + q * q + r * r + 2 * (p * q) + 2 * (p * r) + 2 * (q
            * r),
{
    assert((p + q + r) * (p + q + r) == p * p + q * q + r * r + 2 * (p * q) + 2 * (p * r) + 2 * (q
        * r)) by (nonlinear_arith);
}

/// Products of four factors, regrouped both ways.
proof fn lemma_mul4(p: int, q: int, r: int, s: int)
    ensures
        (p * q) * (r * s) == (p * r) * (q * s),
        (p * q) * (r * s) == (p * s) * (q * r),
{
    assert((p * q) * (r * s) == (p * r) * (q * s) && (p * q) * (r * s) == (p * s) * (q * r))
        by (nonlinear_arith);
}

/// A three-term sum times a three-term sum, expanded.
proof fn lemma_mul_expand3(a1: int, a2: int, a3: int, b1: int, b2: int, b3: int)
    ensures
        (a1 + a2 + a3) * (b1 + b2 + b3) == a1 * b1 + a1 * b2 + a1 * b3 + a2 * b1 + a2 * b2 + a2
            * b3 + a3 * b1 + a3 * b2 + a3 * b3,
{
    assert((a1 + a2 + a3) * (b1 + b2 + b3) == a1 * b1 + a1 * b2 + a1 * b3 + a2 * b1 + a2 * b2 + a2
        * b3 + a3 * b1 + a3 * b2 + a3 * b3) by (nonlinear_arith);
}

/// The vector product is orthogonal to both of its factors: the raw scalar
/// products vanish exactly, before any rounding.
pub proof fn lemma_cross_orthogonal(a: Vector3, b: Vector3)
    ensures
        a.x * cross_raw_x(a, b) + a.y * cross_raw_y(a, b) + a.z * cross_raw_z(a, b) == 0,
        b.x * cross_raw_x(a, b) + b.y * cross_raw_y(a, b) + b.z * cross_raw_z(a, b) == 0,
{
    let (x1, y1, z1) = (a.x as int, a.y as int, a.z as int);
    let (x2, y2, z2) = (b.x as int, b.y as int, b.z as int);
    assert(x1 * (y1 * z2 - z1 * y2) + y1 * (z1 * x2 - x1 * z2) + z1 * (x1 * y2 - y1 * x2) == 0
        && x2 * (y1 * z2 - z1 * y2) + y2 * (z1 * x2 - x1 * z2) + z2 * (x1 * y2 - y1 * x2) == 0)
        by (nonlinear_arith);
}

/// Lagrange's identity: the squared magnitude of the vector product equals
/// the product of the squared magnitudes minus the squared scalar product.
/// It holds exactly of the raw bilinear forms, before any rounding.
pub proof fn lemma_lagrange_identity(a: Vector3, b: Vector3)
    ensures
        cross_raw_x(a, b) * cross_raw_x(a, b) + cross_raw_y(a, b) * cross_raw_y(a, b)
            + cross_raw_z(a, b) * cross_raw_z(a, b)
            == sq_raw(a) * sq_raw(b) - dot_raw(a, b) * dot_raw(a, b),
{
    let (x1, y1, z1) = (a.x as int, a.y as int, a.z as int);
    let (x2, y2, z2) = (b.x as int, b.y as int, b.z as int);
    // The three cross components, squared and expanded.
    lemma_sq_diff(y1 * z2, z1 * y2);
    lemma_sq_diff(z1 * x2, x1 * z2);
    lemma_sq_diff(x1 * y2, y1 * x2);
    // The scalar product, squared and expanded.
    lemma_sq_sum3(x1 * x2, y1 * y2, z1 * z2);
    // Normalize every degree-four monomial to (first factors) * (second factors).
    lemma_mul4(y1, z2, y1, z2);
    lemma_mul4(z1, y2, z1, y2);
    lemma_mul4(y1, z2, z1, y2);
    lemma_mul4(z1, x2, z1, x2);
    lemma_mul4(x1, z2, x1, z2);
    lemma_mul4(z1, x2, x1, z2);
    lemma_mul4(x1, y2, x1, y2);
    lemma_mul4(y1, x2, y1, x2);
    lemma_mul4(x1, y2, y1, x2);
    lemma_mul4(x1, x2, x1, x2);
    lemma_mul4(y1, y2, y1, y2);
    lemma_mul4(z1, z2, z1, z2);
    lemma_mul4(x1, x2, y1, y2);
    lemma_mul4(x1, x2, z1, z2);
    lemma_mul4(y1, y2, z1, z2);
    // The right-hand product of the squared magnitudes, expanded.
    lemma_mul_expand3(x1 * x1, y1 * y1, z1 * z1, x2 * x2, y2 * y2, z2 * z2);
}

/// The squared magnitude agrees with the square of the magnitude up to the
/// fixed-point grid: `magnitude^2 <= square_magnitude < (magnitude + 1)^2`,
/// stated both raw and scaled down.
pub proof fn lemma_square_magnitude_vs_magnitude(v: Vector3)
    ensures
        mag_spec(v) * mag_spec(v) <= sq_raw(v),
        sq_raw(v) < (mag_spec(v) + 1) * (mag_spec(v) + 1),
        fmul_spec(mag_spec(v), mag_spec(v)) <= sqmag_spec(v),
        sqmag_spec(v) <= fmul_spec(mag_spec(v) + 1, mag_spec(v) + 1),
{
    lemma_sq_parts(v);
    lemma_isqrt_spec(sq_raw(v));
    let m = mag_spec(v);
    assert(0 <= m * m) by (nonlinear_arith)
        requires m >= 0,
    ;
    assert(0 <= (m + 1) * (m + 1)) by (nonlinear_arith)
        requires m >= 0,
    ;
    vstd::arithmetic::div_mod::lemma_div_is_ordered(m * m, sq_raw(v), SCALE as int);
    vstd::arithmetic::div_mod::lemma_div_is_ordered(sq_raw(v), (m + 1) * (m + 1), SCALE as int);
}

/// One normalized component, squared: `(x * SCALE / m)^2` lies within
/// `2 * SCALE * m^2` below `x^2 * SCALE^2 / m^2`, scaled through by `m^2`.
proof fn lemma_norm_comp_sq(x: int, m: int)
    requires
        m >= 1,
        abs1(x) <= m,
    ensures
        (tdiv(x * SCALE, m) * tdiv(x * SCALE, m)) * (m * m) <= (x * x) * ((SCALE as int) * SCALE),
        (tdiv(x * SCALE, m) * tdiv(x * SCALE, m)) * (m * m) >= (x * x) * ((SCALE as int) * SCALE)
            - (2 * SCALE) * (m * m),
{
    let t = tdiv(x * SCALE, m);
    let a = abs1(x * SCALE);
    let u = a / m;
    vstd::arithmetic::div_mod::lemma_fundamental_div_mod(a, m);
    vstd::arithmetic::div_mod::lemma_mod_division_less_than_divisor(a, m);
    vstd::arithmetic::div_mod::lemma_div_pos_is_pos(a, m);
    assert(t == u || t == -u);
    assert(a <= m * SCALE && a * a == (x * x) * ((SCALE as int) * SCALE)) by (nonlinear_arith)
        requires
            abs1(x) <= m,
            a == abs1(x * SCALE),
            abs1(x) == (if x >= 0 { x } else { -x }),
            a == (if x * SCALE >= 0 { x * SCALE } else { -(x * SCALE) }),
            SCALE == 65536i64,
            m >= 1,
    ;
    assert(u * m <= a && u * m > a - m) by (nonlinear_arith)
        requires
            a == m * u + a % m,
            0 <= a % m < m,
    ;
    assert((u * u) * (m * m) <= a * a) by (nonlinear_arith)
        requires 0 <= u * m <= a,
    ;
    if a >= m {
        assert((u * u) * (m * m) >= a * a - (2 * SCALE) * (m * m)) by (nonlinear_arith)
            requires
                u * m > a - m,
                a >= m >= 1,
                u >= 0,
                a <= m * SCALE,
                SCALE == 65536i64,
        ;
    } else {
        assert(u == 0) by (nonlinear_arith)
            requires 0 <= u, u * m <= a, a < m, m >= 1,
        ;
        assert(0 >= a * a - (2 * SCALE) * (m * m)) by (nonlinear_arith)
            requires 0 <= a < m, m >= 1, SCALE == 65536i64,
        ;
    }
    assert(t * t == u * u) by (nonlinear_arith)
        requires t == u || t == -u,
    ;
}

/// Normalization yields a vector of magnitude one up to the fixed-point
/// grid: for any vector no shorter than one unit, the squared magnitude of
/// the normalized vector lies within a few grid steps of exactly one.
pub proof fn lemma_normalize_magnitude(v: Vector3)
    requires
        mag_spec(v) >= SCALE,
    ensures
        SCALE * SCALE - 6 * SCALE <= sq_raw(norm_spec(v)),
        sq_raw(norm_spec(v)) <= SCALE * SCALE + 2 * SCALE,
{
    let m = mag_spec(v);
    let q = sq_raw(v);
    lemma_sq_parts(v);
    lemma_isqrt_spec(q);
    lemma_component_le_mag(v);
    lemma_norm_fits(v.x as int, m);
    lemma_norm_fits(v.y as int, m);
    lemma_norm_fits(v.z as int, m);
    lemma_norm_comp_sq(v.x as int, m);
    lemma_norm_comp_sq(v.y as int, m);
    lemma_norm_comp_sq(v.z as int, m);
    let t1 = tdiv(v.x as int * SCALE, m);
    let t2 = tdiv(v.y as int * SCALE, m);
    let t3 = tdiv(v.z as int * SCALE, m);
    let n = norm_spec(v);
    assert(n.x as int == t1 && n.y as int == t2 && n.z as int == t3);
    let sqn = sq_raw(n);
    assert(sqn == t1 * t1 + t2 * t2 + t3 * t3);
    assert(sqn * (m * m) <= q * ((SCALE as int) * SCALE) && sqn * (m * m) >= q * ((SCALE as int)
        * SCALE) - (6 * SCALE) * (m * m)) by (nonlinear_arith)
        requires
            sqn == t1 * t1 + t2 * t2 + t3 * t3,
            q == v.x * v.x + v.y * v.y + v.z * v.z,
            (t1 * t1) * (m * m) <= (v.x * v.x) * ((SCALE as int) * SCALE),
            (t2 * t2) * (m * m) <= (v.y * v.y) * ((SCALE as int) * SCALE),
            (t3 * t3) * (m * m) <= (v.z * v.z) * ((SCALE as int) * SCALE),
            (t1 * t1) * (m * m) >= (v.x * v.x) * ((SCALE as int) * SCALE) - (2 * SCALE) * (m * m),
            (t2 * t2) * (m * m) >= (v.y * v.y) * ((SCALE as int) * SCALE) - (2 * SCALE) * (m * m),
            (t3 * t3) * (m * m) >= (v.z * v.z) * ((SCALE as int) * SCALE) - (2 * SCALE) * (m * m),
    ;
    // The raw square is pinned between m^2 and m^2 + 2m.
    assert(q <= m * m + 2 * m) by (nonlinear_arith)
        requires q < (m + 1) * (m + 1),
    ;
    // Upper bound: more than SCALE^2 + 2*SCALE would outgrow q * SCALE^2.
    assert(sqn <= SCALE * SCALE + 2 * SCALE) by (nonlinear_arith)
        requires
            sqn * (m * m) <= q * ((SCALE as int) * SCALE),
            q <= m * m + 2 * m,
            m >= SCALE,
            SCALE == 65536i64,
    ;
    // Lower bound: q is at least m^2.
    assert(sqn >= SCALE * SCALE - 6 * SCALE) by (nonlinear_arith)
        requires
            sqn * (m * m) >= q * ((SCALE as int) * SCALE) - (6 * SCALE) * (m * m),
            q >= m * m,
            m >= SCALE,
            SCALE == 65536i64,
    ;
}

/// Normalization is idempotent wherever the normalized square lands at or
/// above one: the second pass divides by exactly one and changes nothing.
/// (By `lemma_normalize_magnitude` it can land at most six grid steps
/// below.)
pub proof fn lemma_normalize_idempotent(v: Vector3)
    requires
        mag_spec(v) >= SCALE,
        sq_raw(norm_spec(v)) >= SCALE * SCALE,
    ensures
        norm_spec(norm_spec(v)) == norm_spec(v),
{
    lemma_normalize_magnitude(v);
    let n = norm_spec(v);
    assert((SCALE as int) * SCALE + 2 * SCALE < ((SCALE as int) + 1) * ((SCALE as int) + 1))
        by (nonlinear_arith);
    lemma_isqrt_unique(sq_raw(n), SCALE as int);
    lemma_tdiv_mul_cancel(n.x as int, SCALE as int);
    lemma_tdiv_mul_cancel(n.y as int, SCALE as int);
    lemma_tdiv_mul_cancel(n.z as int, SCALE as int);
}

/// Normalizing a vector of magnitude exactly one returns it unchanged; in
/// particular normalization is idempotent on its exact fixed points.
pub proof fn lemma_normalize_exact_unit(v: Vector3)
    requires
        sq_raw(v) == SCALE * SCALE,
    ensures
        norm_spec(v) == v,
        norm_spec(norm_spec(v)) == norm_spec(v),
{
    assert((SCALE as int) * SCALE < ((SCALE as int) + 1) * ((SCALE as int) + 1))
        by (nonlinear_arith);
    lemma_isqrt_unique(sq_raw(v), SCALE as int);
    lemma_tdiv_mul_cancel(v.x as int, SCALE as int);
    lemma_tdiv_mul_cancel(v.y as int, SCALE as int);
    lemma_tdiv_mul_cancel(v.z as int, SCALE as int);
}

/// Normalizing a vector that lies on a coordinate axis yields exactly the
/// unit vector of that axis, with the sign of the component.
pub proof fn lemma_normalize_axis(x: i64)
    requires
        x != 0,
    ensures
        norm_spec(Vector3 { x, y: 0, z: 0 }) == (Vector3 {
            x: if x > 0 { SCALE } else { (-SCALE) as i64 },
            y: 0,
            z: 0,
        }),
        sq_raw(norm_spec(Vector3 { x, y: 0, z: 0 })) == SCALE * SCALE,
{
    let v = Vector3 { x, y: 0, z: 0 };
    let ax = abs1(x as int);
    assert(sq_raw(v) == ax * ax && ax >= 1) by (nonlinear_arith)
        requires x != 0, ax == abs1(x as int), v.x == x, v.y == 0, v.z == 0,
    ;
    assert(ax * ax < (ax + 1) * (ax + 1)) by (nonlinear_arith)
        requires ax >= 1,
    ;
    lemma_isqrt_unique(sq_raw(v), ax);
    lemma_tdiv_mul_cancel(SCALE as int, ax);
    assert(x as int * SCALE == SCALE * (x as int)) by (nonlinear_arith);
    if x > 0 {
        assert(tdiv(SCALE * (x as int), ax) == tdiv(SCALE * ax, ax));
    } else {
        assert(SCALE * (x as int) == -(SCALE * ax)) by (nonlinear_arith)
            requires x < 0, ax == -(x as int),
        ;
        lemma_tdiv_neg(SCALE * ax, ax);
    }
    let u = norm_spec(v);
    assert(sq_raw(u) == SCALE * SCALE) by (nonlinear_arith)
        requires
            u.x as int == SCALE || u.x as int == -(SCALE as int),
            u.y == 0,
            u.z == 0,
    ;
}

impl Vector3 {
    /// Builds an orthonormal right-handed basis from `a` and `b` in place:
    /// `a` is normalized, `c` becomes the normalized product `a x b`, and
    /// `b` is replaced by `c x a`. Fails, leaving `a` normalized, `c` zero
    /// and `b` untouched, exactly when the rounded product `a x b` is the
    /// zero vector, which is the collinear case.
    pub fn make_orthonormal_basis(a: &mut Vector3, b: &mut Vector3, c: &mut Vector3) -> (r:
        Result<(), BasisError>)
        requires
            sq_raw(*old(a)) > 0,
            sq_raw(*old(a)) < 0x4000_0000_0000_0000_0000_0000_0000_0000,
            abs1(old(b).x as int) <= 0x4000_0000_0000,
            abs1(old(b).y as int) <= 0x4000_0000_0000,
            abs1(old(b).z as int) <= 0x4000_0000_0000,
        ensures
            *final(a) == norm_spec(*old(a)),
            r is Err <==> cross_spec(norm_spec(*old(a)), *old(b)) == (Vector3 { x: 0, y: 0, z: 0 }),
            r is Err ==> *final(b) == *old(b) && *final(c) == (Vector3 { x: 0, y: 0, z: 0 }),
            r is Ok ==> *final(c) == norm_spec(cross_spec(norm_spec(*old(a)), *old(b)))
                && *final(b) == cross_spec(*final(c), *final(a)),
    {
        a.normalize();
        proof {
            lemma_basis_cross_fits(*a, *b);
        }
        let cv = a.vector_product(&*b);
        c.update_by_vector3(cv);
        if c.x == 0 && c.y == 0 && c.z == 0 {
            return Err(BasisError::ParallelVectors);
        }
        proof {
            lemma_sq_parts(*c);
            assert(sq_raw(*c) > 0) by (nonlinear_arith)
                requires
                    !(c.x == 0 && c.y == 0 && c.z == 0),
                    sq_raw(*c) == c.x * c.x + c.y * c.y + c.z * c.z,
            ;
            assert(sq_raw(*c) < 0x4000_0000_0000_0000_0000_0000_0000_0000) by (nonlinear_arith)
                requires
                    abs1(c.x as int) <= 0x8000_0000_0000,
                    abs1(c.y as int) <= 0x8000_0000_0000,
                    abs1(c.z as int) <= 0x8000_0000_0000,
                    sq_raw(*c) == c.x * c.x + c.y * c.y + c.z * c.z,
            ;
        }
        c.normalize();
        proof {
            lemma_unit_cross_fits(*c, *a);
        }
        let bv = c.vector_product(&*a);
        b.update_by_vector3(bv);
        Ok(())
    }
}

/// The rounded product of a normalized vector with a range-bounded vector
/// fits, component by component, within twice the bound.
proof fn lemma_basis_cross_fits(a: Vector3, b: Vector3)
    requires
        abs1(a.x as int) <= SCALE,
        abs1(a.y as int) <= SCALE,
        abs1(a.z as int) <= SCALE,
        abs1(b.x as int) <= 0x4000_0000_0000,
        abs1(b.y as int) <= 0x4000_0000_0000,
        abs1(b.z as int) <= 0x4000_0000_0000,
    ensures
        in_i64(tdiv(cross_raw_x(a, b), SCALE as int)),
        in_i64(tdiv(cross_raw_y(a, b), SCALE as int)),
        in_i64(tdiv(cross_raw_z(a, b), SCALE as int)),
        abs1(tdiv(cross_raw_x(a, b), SCALE as int)) <= 0x8000_0000_0000,
        abs1(tdiv(cross_raw_y(a, b), SCALE as int)) <= 0x8000_0000_0000,
        abs1(tdiv(cross_raw_z(a, b), SCALE as int)) <= 0x8000_0000_0000,
{
    lemma_cross_term_fits(a.y as int, b.z as int, a.z as int, b.y as int);
    lemma_cross_term_fits(a.z as int, b.x as int, a.x as int, b.z as int);
    lemma_cross_term_fits(a.x as int, b.y as int, a.y as int, b.x as int);
}

/// The rounded product of two normalized vectors fits comfortably.
proof fn lemma_unit_cross_fits(a: Vector3, b: Vector3)
    requires
        abs1(a.x as int) <= SCALE,
        abs1(a.y as int) <= SCALE,
        abs1(a.z as int) <= SCALE,
        abs1(b.x as int) <= SCALE,
        abs1(b.y as int) <= SCALE,
        abs1(b.z as int) <= SCALE,
    ensures
        in_i64(tdiv(cross_raw_x(a, b), SCALE as int)),
        in_i64(tdiv(cross_raw_y(a, b), SCALE as int)),
        in_i64(tdiv(cross_raw_z(a, b), SCALE as int)),
{
    lemma_cross_term_fits(a.y as int, b.z as int, a.z as int, b.y as int);
    lemma_cross_term_fits(a.z as int, b.x as int, a.x as int, b.z as int);
    lemma_cross_term_fits(a.x as int, b.y as int, a.y as int, b.x as int);
}

impl Vector3 {
    /// The vector scaled by a fixed-point factor; reports instead of
    /// overflowing.
    pub fn scale_checked(&self, k: i64) -> (r: Option<Vector3>)
        ensures
            r == if scale_fits(*self, k as int) {
                Some(scale_spec(*self, k as int))
            } else {
                None::<Vector3>
            },
    {
        let ox = crate::fixed::checked_fmul(self.x, k);
        let oy = crate::fixed::checked_fmul(self.y, k);
        let oz = crate::fixed::checked_fmul(self.z, k);
        match (ox, oy, oz) {
            (Some(x), Some(y), Some(z)) => Some(Vector3 { x, y, z }),
            _ => None,
        }
    }

    /// The sum of two vectors; reports instead of overflowing.
    pub fn add_checked(&self, other: &Vector3) -> (r: Option<Vector3>)
        ensures
            r == if add_fits(*self, *other) {
                Some(add_spec(*self, *other))
            } else {
                None::<Vector3>
            },
    {
        let ox = crate::fixed::checked_add64(self.x, other.x);
        let oy = crate::fixed::checked_add64(self.y, other.y);
        let oz = crate::fixed::checked_add64(self.z, other.z);
        match (ox, oy, oz) {
            (Some(x), Some(y), Some(z)) => Some(Vector3 { x, y, z }),
            _ => None,
        }
    }

    /// The difference of two vectors; reports instead of overflowing.
    pub fn sub_checked(&self, other: &Vector3) -> (r: Option<Vector3>)
        ensures
            r == if sub_fits(*self, *other) {
                Some(sub_spec(*self, *other))
            } else {
                None::<Vector3>
            },
    {
        let ox = crate::fixed::checked_sub64(self.x, other.x);
        let oy = crate::fixed::checked_sub64(self.y, other.y);
        let oz = crate::fixed::checked_sub64(self.z, other.z);
        match (ox, oy, oz) {
            (Some(x), Some(y), Some(z)) => Some(Vector3 { x, y, z }),
            _ => None,
        }
    }

    /// The magnitude, or nothing where the raw square would leave the range
    /// on which the square root stays within the scalar grid.
    pub fn magnitude_checked(&self) -> (r: Option<i64>)
        ensures
            r == if sq_raw(*self) < 0x4000_0000_0000_0000_0000_0000_0000_0000 {
                Some(mag_spec(*self) as i64)
            } else {
                None::<i64>
            },
            mag_spec(*self) >= 0,
            sq_raw(*self) < 0x4000_0000_0000_0000_0000_0000_0000_0000 ==> mag_spec(*self)
                <= i64::MAX,
    {
        proof {
            lemma_sq_parts(*self);
            lemma_isqrt_spec(sq_raw(*self));
            lemma_prod_bounds(self.x as int, self.x as int);
            lemma_prod_bounds(self.y as int, self.y as int);
            lemma_prod_bounds(self.z as int, self.z as int);
        }
        let px: u128 = ((self.x as i128) * (self.x as i128)) as u128;
        let py: u128 = ((self.y as i128) * (self.y as i128)) as u128;
        let pz: u128 = ((self.z as i128) * (self.z as i128)) as u128;
        let q: u128 = px + py + pz;
        if q >= 0x4000_0000_0000_0000_0000_0000_0000_0000 {
            return None;
        }
        proof {
            assert(isqrt_spec(q as int) < 0x8000_0000_0000_0000) by (nonlinear_arith)
                requires
                    isqrt_spec(q as int) >= 0,
                    isqrt_spec(q as int) * isqrt_spec(q as int) <= q as int,
                    (q as int) < 0x4000_0000_0000_0000_0000_0000_0000_0000,
            ;
        }
        let m = isqrt_u128(q);
        proof {
            lemma_isqrt_spec(q as int);
            assert(isqrt_spec(q as int) < 0x8000_0000_0000_0000) by (nonlinear_arith)
                requires
                    isqrt_spec(q as int) >= 0,
                    isqrt_spec(q as int) * isqrt_spec(q as int) <= q as int,
                    (q as int) < 0x4000_0000_0000_0000_0000_0000_0000_0000,
            ;
        }
        Some(m as i64)
    }
}

/// One cross-product component, with one factor of each product bounded by
/// SCALE and the other by a range bound, scales down to within twice the
/// range bound.
proof fn lemma_cross_term_fits(p: int, q: int, r: int, s: int)
    requires
        abs1(p) <= SCALE,
        abs1(r) <= SCALE,
        abs1(q) <= 0x4000_0000_0000,
        abs1(s) <= 0x4000_0000_0000,
    ensures
        in_i64(tdiv(p * q - r * s, SCALE as int)),
        abs1(tdiv(p * q - r * s, SCALE as int)) <= 0x8000_0000_0000,
{
    let t = p * q - r * s;
    assert(abs1(t) <= SCALE * 0x8000_0000_0000) by (nonlinear_arith)
        requires
            abs1(p) <= SCALE,
            abs1(r) <= SCALE,
            abs1(q) <= 0x4000_0000_0000,
            abs1(s) <= 0x4000_0000_0000,
            t == p * q - r * s,
            SCALE == 65536i64,
    ;
    vstd::arithmetic::div_mod::lemma_multiply_divide_le(abs1(t), SCALE as int, 0x8000_0000_0000);
    vstd::arithmetic::div_mod::lemma_div_pos_is_pos(abs1(t), SCALE as int);
    assert(in_i64(tdiv(t, SCALE as int)));
}

} // verus!
