//! Three-dimensional vectors and axis rotation matrices over
//! fixed-point scalars.
//!
//! `V3` and `M3` are the spec-level models: vectors and matrices of
//! mathematical integers holding raw fixed-point values.  Every
//! executable operation has an exact contract in terms of the model
//! functions `vadd`, `vsub`, `vneg`, `vscale`, `vdot`, `vcross`,
//! `vlength`, `vnormalize` and `vtransform`.

use vstd::prelude::*;

use crate::fixed::{
    fadd, fdiv, fmul, fneg, fsqrt, fsub, lemma_fmul_comm, lemma_fmul_one, lemma_fmul_zero, wf, Fx,
    SCALE,
};

verus! {

/// Tolerance of component-wise approximate equality, in raw steps.
/// One raw step is one millionth of a unit, the epsilon of the
/// component-wise comparison.
pub const EPS_RAW: i64 = 1;

/// Spec-level vector: raw fixed-point values as mathematical integers.
pub ghost struct V3 {
    pub x: int,
    pub y: int,
    pub z: int,
}

/// Spec-level 3x3 matrix (the rotation block of the usual 4x4
/// convention), row major: `mRC` is row `R`, column `C`.
pub ghost struct M3 {
    pub m00: int,
    pub m01: int,
    pub m02: int,
    pub m10: int,
    pub m11: int,
    pub m12: int,
    pub m20: int,
    pub m21: int,
    pub m22: int,
}

/// The zero vector.
pub open spec fn vzero() -> V3 {
    V3 { x: 0, y: 0, z: 0 }
}

/// Whether every component is representable.
pub open spec fn vwf(a: V3) -> bool {
    wf(a.x) && wf(a.y) && wf(a.z)
}

/// Component-wise sum.
pub open spec fn vadd(a: V3, b: V3) -> V3 {
    V3 { x: fadd(a.x, b.x), y: fadd(a.y, b.y), z: fadd(a.z, b.z) }
}

/// Component-wise difference.
pub open spec fn vsub(a: V3, b: V3) -> V3 {
    V3 { x: fsub(a.x, b.x), y: fsub(a.y, b.y), z: fsub(a.z, b.z) }
}

/// Component-wise negation.
pub open spec fn vneg(a: V3) -> V3 {
    V3 { x: fneg(a.x), y: fneg(a.y), z: fneg(a.z) }
}

/// The vector scaled by a fixed-point factor.
pub open spec fn vscale(a: V3, s: int) -> V3 {
    V3 { x: fmul(a.x, s), y: fmul(a.y, s), z: fmul(a.z, s) }
}

/// The vector divided component-wise by a fixed-point factor.
pub open spec fn vdiv(a: V3, s: int) -> V3 {
    V3 { x: fdiv(a.x, s), y: fdiv(a.y, s), z: fdiv(a.z, s) }
}

/// The dot product, summed left to right.
pub open spec fn vdot(a: V3, b: V3) -> int {
    fadd(fadd(fmul(a.x, b.x), fmul(a.y, b.y)), fmul(a.z, b.z))
}

/// The cross product.
pub open spec fn vcross(a: V3, b: V3) -> V3 {
    V3 {
        x: fsub(fmul(a.y, b.z), fmul(a.z, b.y)),
        y: fsub(fmul(a.z, b.x), fmul(a.x, b.z)),
        z: fsub(fmul(a.x, b.y), fmul(a.y, b.x)),
    }
}

/// The Euclidean length: the square root of the dot product with
/// itself.
pub open spec fn vlength(a: V3) -> int {
    fsqrt(vdot(a, a))
}

/// The normalized vector: the vector scaled by the reciprocal of its
/// length, or the vector itself when its squared length is not
/// positive.
pub open spec fn vnormalize(a: V3) -> V3 {
    let ls = vdot(a, a);
    if ls > 0 {
        vscale(a, fdiv(SCALE as int, fsqrt(ls)))
    } else {
        a
    }
}

/// The row vector `a` multiplied by the matrix `m`.
pub open spec fn vtransform(a: V3, m: M3) -> V3 {
    V3 {
        x: fadd(fadd(fmul(a.x, m.m00), fmul(a.y, m.m10)), fmul(a.z, m.m20)),
        y: fadd(fadd(fmul(a.x, m.m01), fmul(a.y, m.m11)), fmul(a.z, m.m21)),
        z: fadd(fadd(fmul(a.x, m.m02), fmul(a.y, m.m12)), fmul(a.z, m.m22)),
    }
}

/// Whether two raw values are within the epsilon tolerance.
pub open spec fn close(a: int, b: int) -> bool {
    -EPS_RAW <= a - b <= EPS_RAW
}

/// Component-wise approximate equality, one raw step of tolerance.
pub open spec fn vclose(a: V3, b: V3) -> bool {
    close(a.x, b.x) && close(a.y, b.y) && close(a.z, b.z)
}

/// A principal rotation axis.
#[derive(Clone, Copy, Debug, PartialEq, Eq, Structural)]
pub enum Axis {
    X,
    Y,
    Z,
}

/// The rotation matrix about a principal axis, for row vectors, given
/// the sine and cosine of the rotation angle.
pub open spec fn rotation(axis: Axis, s: int, c: int) -> M3 {
    match axis {
        Axis::X => M3 {
            m00: SCALE as int, m01: 0, m02: 0,
            m10: 0, m11: c, m12: s,
            m20: 0, m21: fneg(s), m22: c,
        },
        Axis::Y => M3 {
            m00: c, m01: 0, m02: fneg(s),
            m10: 0, m11: SCALE as int, m12: 0,
            m20: s, m21: 0, m22: c,
        },
        Axis::Z => M3 {
            m00: c, m01: s, m02: 0,
            m10: fneg(s), m11: c, m12: 0,
            m20: 0, m21: 0, m22: SCALE as int,
        },
    }
}

/// A three-dimensional vector of fixed-point scalars.
#[derive(Clone, Copy, Debug)]
pub struct Vec3 {
    pub x: Fx,
    pub y: Fx,
    pub z: Fx,
}

impl View for Vec3 {
    type V = V3;

    open spec fn view(&self) -> V3 {
        V3 { x: self.x@, y: self.y@, z: self.z@ }
    }
}

/// A 3x3 matrix of fixed-point scalars, row major.
#[derive(Clone, Copy, Debug)]
pub struct Mat3 {
    pub m00: Fx,
    pub m01: Fx,
    pub m02: Fx,
    pub m10: Fx,
    pub m11: Fx,
    pub m12: Fx,
    pub m20: Fx,
    pub m21: Fx,
    pub m22: Fx,
}

impl View for Mat3 {
    type V = M3;

    open spec fn view(&self) -> M3 {
        M3 {
            m00: self.m00@, m01: self.m01@, m02: self.m02@,
            m10: self.m10@, m11: self.m11@, m12: self.m12@,
            m20: self.m20@, m21: self.m21@, m22: self.m22@,
        }
    }
}

impl Mat3 {
    /// The pure rotation matrix about `axis`, given the sine and
    /// cosine of the rotation angle (the caller computes them; a
    /// rotation by `-theta` passes the negated sine).
    pub fn create_rotation(axis: Axis, sin_t: Fx, cos_t: Fx) -> (r: Mat3)
        ensures
            r@ == rotation(axis, sin_t@, cos_t@),
    {
        let one = Fx::one();
        let zero = Fx::zero();
        match axis {
            Axis::X => Mat3 {
                m00: one, m01: zero, m02: zero,
                m10: zero, m11: cos_t, m12: sin_t,
                m20: zero, m21: sin_t.neg(), m22: cos_t,
            },
            Axis::Y => Mat3 {
                m00: cos_t, m01: zero, m02: sin_t.neg(),
                m10: zero, m11: one, m12: zero,
                m20: sin_t, m21: zero, m22: cos_t,
            },
            Axis::Z => Mat3 {
                m00: cos_t, m01: sin_t, m02: zero,
                m10: sin_t.neg(), m11: cos_t, m12: zero,
                m20: zero, m21: zero, m22: one,
            },
        }
    }
}

impl Vec3 {
    /// The vector with the given components.
    pub fn new(x: Fx, y: Fx, z: Fx) -> (r: Vec3)
        ensures
            r@ == (V3 { x: x@, y: y@, z: z@ }),
    {
        Vec3 { x, y, z }
    }

    /// The zero vector.
    pub fn zero() -> (r: Vec3)
        ensures
            r@ == vzero(),
    {
        Vec3 { x: Fx::zero(), y: Fx::zero(), z: Fx::zero() }
    }

    /// Component-wise sum.
    pub fn add(self, rhs: Vec3) -> (r: Vec3)
        ensures
            r@ == vadd(self@, rhs@),
    {
        Vec3 { x: self.x.add(rhs.x), y: self.y.add(rhs.y), z: self.z.add(rhs.z) }
    }

    /// Component-wise difference.
    pub fn sub(self, rhs: Vec3) -> (r: Vec3)
        ensures
            r@ == vsub(self@, rhs@),
    {
        Vec3 { x: self.x.sub(rhs.x), y: self.y.sub(rhs.y), z: self.z.sub(rhs.z) }
    }

    /// Component-wise negation.
    pub fn neg(self) -> (r: Vec3)
        ensures
            r@ == vneg(self@),
    {
        Vec3 { x: self.x.neg(), y: self.y.neg(), z: self.z.neg() }
    }

    /// The vector scaled by a fixed-point factor.
    pub fn scale(self, s: Fx) -> (r: Vec3)
        ensures
            r@ == vscale(self@, s@),
    {
        Vec3 { x: self.x.mul(s), y: self.y.mul(s), z: self.z.mul(s) }
    }

    /// The vector divided by a fixed-point factor; division by zero
    /// gives the zero vector.
    pub fn div(self, s: Fx) -> (r: Vec3)
        ensures
            r@ == vdiv(self@, s@),
    {
        Vec3 { x: self.x.div(s), y: self.y.div(s), z: self.z.div(s) }
    }

    /// The dot product.
    pub fn dot(&self, v: Vec3) -> (r: Fx)
        ensures
            r@ == vdot(self@, v@),
    {
        self.x.mul(v.x).add(self.y.mul(v.y)).add(self.z.mul(v.z))
    }

    /// The cross product.
    pub fn cross(self, rhs: Vec3) -> (r: Vec3)
        ensures
            r@ == vcross(self@, rhs@),
    {
        Vec3 {
            x: self.y.mul(rhs.z).sub(self.z.mul(rhs.y)),
            y: self.z.mul(rhs.x).sub(self.x.mul(rhs.z)),
            z: self.x.mul(rhs.y).sub(self.y.mul(rhs.x)),
        }
    }

    /// The Euclidean length.
    pub fn length(&self) -> (r: Fx)
        ensures
            r@ == vlength(self@),
    {
        self.dot(*self).sqrt()
    }

    /// The vector rescaled to unit length by multiplying with the
    /// reciprocal of its length; a vector whose squared length is not
    /// positive is returned unchanged.
    pub fn normalize(&self) -> (r: Vec3)
        ensures
            r@ == vnormalize(self@),
    {
        let length_squared = self.dot(*self);
        if length_squared.raw > 0 {
            let inverse_length = Fx::one().div(length_squared.sqrt());
            Vec3 {
                x: self.x.mul(inverse_length),
                y: self.y.mul(inverse_length),
                z: self.z.mul(inverse_length),
            }
        } else {
            *self
        }
    }

    /// The row vector multiplied by a matrix.
    pub fn transform_point(&self, mat: &Mat3) -> (r: Vec3)
        ensures
            r@ == vtransform(self@, mat@),
    {
        Vec3 {
            x: self.x.mul(mat.m00).add(self.y.mul(mat.m10)).add(self.z.mul(mat.m20)),
            y: self.x.mul(mat.m01).add(self.y.mul(mat.m11)).add(self.z.mul(mat.m21)),
            z: self.x.mul(mat.m02).add(self.y.mul(mat.m12)).add(self.z.mul(mat.m22)),
        }
    }

    /// Component-wise approximate equality within one raw step.
    pub fn approx_eq(&self, other: &Vec3) -> (r: bool)
        ensures
            r == vclose(self@, other@),
    {
        close_fx(self.x, other.x) && close_fx(self.y, other.y) && close_fx(self.z, other.z)
    }
}

/// Whether two scalars are within the epsilon tolerance.
fn close_fx(a: Fx, b: Fx) -> (r: bool)
    ensures
        r == close(a@, b@),
{
    let d: i128 = (a.raw as i128) - (b.raw as i128);
    -(EPS_RAW as i128) <= d && d <= (EPS_RAW as i128)
}

/// Normalizing the zero vector returns the zero vector unchanged.
pub proof fn lemma_normalize_zero()
    ensures
        vnormalize(vzero()) == vzero(),
{
    lemma_fmul_zero(0);
}

/// Normalizing a vector whose fixed-point length is exactly one
/// returns the vector unchanged.
pub proof fn lemma_normalize_unit(a: V3)
    requires
        vwf(a),
        vlength(a) == SCALE,
    ensures
        vnormalize(a) == a,
{
    let ls = vdot(a, a);
    assert(ls > 0);
    assert(fdiv(SCALE as int, fsqrt(ls)) == SCALE) by {
        assert(fsqrt(ls) == SCALE);
        vstd::arithmetic::div_mod::lemma_div_multiples_vanish(SCALE as int, SCALE as int);
    }
    lemma_fmul_one(a.x);
    lemma_fmul_one(a.y);
    lemma_fmul_one(a.z);
}

/// Scaling a value of at most one unit by a factor within one step of
/// one moves it by at most one step.
proof fn lemma_scale_near_one(c: int, inv: int)
    requires
        -SCALE <= c <= SCALE,
        SCALE - 1 <= inv <= SCALE + 1,
    ensures
        close(fmul(c, inv), c),
{
    let s = SCALE as int;
    let delta = inv - s;
    assert(c * inv == c * s + c * delta) by (nonlinear_arith)
        requires
            delta == inv - s,
    {
    }
    assert(-s <= c * delta <= s) by (nonlinear_arith)
        requires
            -s <= c <= s,
            -1 <= delta <= 1,
            s == SCALE as int,
    {
    }
    assert((-c) * inv == (-c) * s + (-c) * delta) by (nonlinear_arith)
        requires
            delta == inv - s,
    {
    }
    assert(-s <= (-c) * delta <= s) by (nonlinear_arith)
        requires
            -s <= c <= s,
            -1 <= delta <= 1,
            s == SCALE as int,
    {
    }
    if c * inv >= 0 {
        vstd::arithmetic::div_mod::lemma_hoist_over_denominator(c * delta, c, SCALE as nat);
        vstd::arithmetic::div_mod::lemma_div_is_ordered(c * delta, s, s);
        vstd::arithmetic::div_mod::lemma_div_is_ordered(-s, c * delta, s);
    } else {
        vstd::arithmetic::div_mod::lemma_hoist_over_denominator((-c) * delta, -c, SCALE as nat);
        vstd::arithmetic::div_mod::lemma_div_is_ordered((-c) * delta, s, s);
        vstd::arithmetic::div_mod::lemma_div_is_ordered(-s, (-c) * delta, s);
    }
}

/// Normalizing a vector whose components are at most one unit and
/// whose fixed-point length is within one step of one moves every
/// component by at most one step: normalizing a unit vector gives the
/// vector back, within the epsilon tolerance.
pub proof fn lemma_normalize_near_unit(a: V3)
    requires
        -SCALE <= a.x <= SCALE,
        -SCALE <= a.y <= SCALE,
        -SCALE <= a.z <= SCALE,
        SCALE - 1 <= vlength(a) <= SCALE + 1,
    ensures
        vclose(vnormalize(a), a),
{
    let s = SCALE as int;
    let ls = vdot(a, a);
    let len = fsqrt(ls);
    assert(ls > 0);
    // the reciprocal of the length is within one step of one
    assert(s * s == (s + 1) * (s - 1) + 1) by (nonlinear_arith);
    vstd::arithmetic::div_mod::lemma_fundamental_div_mod_converse(s * s, s - 1, s + 1, 1);
    vstd::arithmetic::div_mod::lemma_fundamental_div_mod_converse(s * s, s + 1, s - 1, 1);
    vstd::arithmetic::div_mod::lemma_div_is_ordered_by_denominator(s * s, s - 1, len);
    vstd::arithmetic::div_mod::lemma_div_is_ordered_by_denominator(s * s, len, s + 1);
    let inv = fdiv(s, len);
    assert(s - 1 <= inv <= s + 1);
    lemma_scale_near_one(a.x, inv);
    lemma_scale_near_one(a.y, inv);
    lemma_scale_near_one(a.z, inv);
}

/// The cross product is antisymmetric: `cross(a, b) == -cross(b, a)`.
pub proof fn lemma_cross_antisymmetric(a: V3, b: V3)
    ensures
        vcross(a, b) == vneg(vcross(b, a)),
{
    lemma_fmul_comm(a.y, b.z);
    lemma_fmul_comm(a.z, b.y);
    lemma_fmul_comm(a.z, b.x);
    lemma_fmul_comm(a.x, b.z);
    lemma_fmul_comm(a.x, b.y);
    lemma_fmul_comm(a.y, b.x);
}

/// The dot product is symmetric: `dot(a, b) == dot(b, a)`.
pub proof fn lemma_dot_symmetric(a: V3, b: V3)
    ensures
        vdot(a, b) == vdot(b, a),
{
    lemma_fmul_comm(a.x, b.x);
    lemma_fmul_comm(a.y, b.y);
    lemma_fmul_comm(a.z, b.z);
}

} // verus!
