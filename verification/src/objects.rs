//! Scene objects: materials, geometric primitives and lights.

use vstd::prelude::*;

use crate::fixed::{
    fdiv, fmul, fsqrt, fsub, lemma_fmul_comm, lemma_fmul_one, lemma_fmul_small, lemma_fmul_whole,
    lemma_fmul_zero, lemma_sqrt_floor_unique, wf, Fx, SCALE,
};
use vstd::arithmetic::div_mod::{
    lemma_div_is_ordered, lemma_div_multiples_vanish, lemma_div_pos_is_pos,
    lemma_fundamental_div_mod, lemma_fundamental_div_mod_converse, lemma_hoist_over_denominator,
    lemma_mod_division_less_than_divisor,
};
use crate::ray::Ray;
use crate::vec3::{
    vadd, vdot, vneg, vnormalize, vscale, vsub, vzero, V3, Vec3,
};

verus! {

/// A colour triple as raw fixed-point values.
pub open spec fn cv3(c: (Fx, Fx, Fx)) -> (int, int, int) {
    (c.0@, c.1@, c.2@)
}

/// A surface material: a colour with channels roughly in `[0, 1]`, a
/// specular exponent, and a metallic factor in `[0, 1]` blending local
/// shading with traced reflection.
#[derive(Clone, Copy, Debug)]
pub struct Material {
    pub colour: (Fx, Fx, Fx),
    pub specular: u32,
    pub metallic: Fx,
}

/// A geometric primitive: a sphere, or a square plane patch of side
/// `size` centred at `center` with unit normal `normal`.
#[derive(Clone, Debug)]
pub enum Geometry {
    Sphere { center: Vec3, radius: Fx },
    Plane { center: Vec3, normal: Vec3, size: Fx },
}

/// The intersection of a ray with a sphere: the smaller root of
/// `t*t + 2*t*(d . o) + (o . o - r*r) == 0` in sphere-local space,
/// of either sign, with the hit point `origin + direction * t`; or
/// `None` when the discriminant is negative.
pub open spec fn sphere_intersect(center: V3, radius: int, o: V3, d: V3) -> Option<(int, V3)> {
    let local = vsub(o, center);
    let a = SCALE as int;
    let b = fmul(2 * SCALE, vdot(d, local));
    let c = fsub(vdot(local, local), fmul(radius, radius));
    if crate::solver::quad_disc(a, b, c) >= 0 {
        let r1 = crate::solver::quad_root1(a, b, c);
        let r2 = crate::solver::quad_root2(a, b, c);
        let t = if r1 < r2 { r1 } else { r2 };
        Some((t, vadd(o, vscale(d, t))))
    } else {
        None
    }
}

/// A ray travelling along the Z axis whose perpendicular offset `h`
/// from a sphere's centre clears the radius — by enough that the
/// squared gap survives rescaling — misses the sphere: the
/// fixed-point discriminant is negative and no intersection is
/// reported.  Stated for coordinates within ten thousand units.
pub proof fn lemma_perpendicular_offset_misses(h: int, z: int, r: int)
    requires
        0 <= h <= 10_000_000_000,
        -10_000_000_000 <= z <= 10_000_000_000,
        0 <= r,
        r * r + SCALE <= h * h,
    ensures
        sphere_intersect(
            vzero(),
            r,
            V3 { x: h, y: 0, z: z },
            V3 { x: 0, y: 0, z: SCALE as int },
        ) is None,
{
    let s = SCALE as int;
    let o = V3 { x: h, y: 0, z: z };
    let d = V3 { x: 0, y: 0, z: s };
    assert(vsub(o, vzero()) == o);

    // r is no larger than h, so all three coordinates are small
    assert(r <= h) by (nonlinear_arith)
        requires
            0 <= r,
            0 <= h,
            r * r + SCALE <= h * h,
    {
    }

    // the ray-direction dot product evaluates to z, so b is 2 z
    lemma_fmul_zero(h);
    lemma_fmul_zero(0);
    lemma_fmul_comm(s, z);
    lemma_fmul_one(z);
    assert(vdot(d, o) == z);
    lemma_fmul_whole(2, z);
    let b = fmul(2 * SCALE, vdot(d, o));
    assert(b == 2 * z);

    // the squared terms evaluate to rescaled squares
    lemma_fmul_small(h, h);
    lemma_fmul_small(z, z);
    lemma_fmul_small(r, r);
    lemma_fmul_small(2 * z, 2 * z);
    assert(h * h >= 0 && z * z >= 0 && r * r >= 0 && (2 * z) * (2 * z) >= 0)
        by (nonlinear_arith);
    assert(h * h <= 100_000_000_000_000_000_000 && z * z <= 100_000_000_000_000_000_000 && r * r
        <= 100_000_000_000_000_000_000) by (nonlinear_arith)
        requires
            0 <= h <= 10_000_000_000,
            -10_000_000_000 <= z <= 10_000_000_000,
            0 <= r <= 10_000_000_000,
    {
    }
    let hq = (h * h) / s;
    let zq = (z * z) / s;
    let rq = (r * r) / s;
    lemma_div_is_ordered(h * h, 100_000_000_000_000_000_000, s);
    lemma_div_is_ordered(z * z, 100_000_000_000_000_000_000, s);
    lemma_div_is_ordered(r * r, 100_000_000_000_000_000_000, s);
    lemma_div_pos_is_pos(h * h, s);
    lemma_div_pos_is_pos(z * z, s);
    lemma_div_pos_is_pos(r * r, s);
    assert(100_000_000_000_000_000_000int / 1_000_000int == 100_000_000_000_000);
    assert(vdot(o, o) == hq + zq);
    let c = fsub(vdot(o, o), fmul(r, r));
    assert(c == hq + zq - rq);

    // 4 a c evaluates to 4 (hq + zq - rq)
    assert(wf(4 * s));
    lemma_fmul_whole(4, s);
    assert(fmul(fmul(4 * SCALE, s), c) == fmul(4 * SCALE, c));
    lemma_fmul_whole(4, c);

    // b squared is at most 4 zq + 3
    lemma_fundamental_div_mod(z * z, s);
    lemma_mod_division_less_than_divisor(z * z, s);
    let rem = (z * z) % s;
    assert((2 * z) * (2 * z) == 4 * (z * z)) by (nonlinear_arith);
    lemma_hoist_over_denominator(4 * rem, 4 * zq, SCALE as nat);
    assert(4 * rem + (4 * zq) * s == 4 * (z * z));
    lemma_div_is_ordered(4 * rem, 4 * s - 1, s);
    lemma_fundamental_div_mod_converse(4 * s - 1, s, 3, s - 1);
    lemma_div_pos_is_pos(4 * rem, s);
    assert(fmul(b, b) == 4 * zq + (4 * rem) / s);
    assert(fmul(b, b) <= 4 * zq + 3);

    // the cleared radius forces hq to exceed rq
    lemma_hoist_over_denominator(r * r, 1, SCALE as nat);
    lemma_div_is_ordered(r * r + s, h * h, s);
    assert(rq + 1 <= hq);

    // so the discriminant is negative and the sphere reports no hit
    assert(fmul(b, b) - 4 * (hq + zq - rq) <= -1);
    assert(crate::solver::quad_disc(s, b, c) < 0);
}

/// A ray travelling along the Z axis straight at the centre of a
/// sphere on that axis, from distance `cz - oz` outside it, hits at
/// distance exactly `(cz - oz) - r`, at the point where the axis
/// crosses the near surface — whenever the squares of the distance
/// and of the radius land exactly on the fixed-point grid, so no
/// truncation occurs.  Stated for coordinates within ten thousand
/// units.
pub proof fn lemma_head_on_hit_distance(oz: int, cz: int, r: int)
    requires
        -10_000_000_000 <= oz <= 10_000_000_000,
        -10_000_000_000 <= cz <= 10_000_000_000,
        0 <= r < cz - oz <= 10_000_000_000,
        ((cz - oz) * (cz - oz)) % (SCALE as int) == 0,
        (r * r) % (SCALE as int) == 0,
    ensures
        sphere_intersect(
            V3 { x: 0, y: 0, z: cz },
            r,
            V3 { x: 0, y: 0, z: oz },
            V3 { x: 0, y: 0, z: SCALE as int },
        ) == Some(((cz - oz) - r, V3 { x: 0, y: 0, z: cz - r })),
{
    let s = SCALE as int;
    let m = cz - oz;
    let o = V3 { x: 0, y: 0, z: oz };
    let d = V3 { x: 0, y: 0, z: s };
    let center = V3 { x: 0, y: 0, z: cz };
    let local = V3 { x: 0, y: 0, z: -m };
    assert(vsub(o, center) == local);

    // the ray-direction dot product evaluates to -m, so b is -2 m
    lemma_fmul_zero(0);
    lemma_fmul_comm(s, -m);
    lemma_fmul_one(-m);
    assert(vdot(d, local) == -m);
    lemma_fmul_whole(2, -m);
    let b = fmul(2 * SCALE, vdot(d, local));
    assert(b == -2 * m);

    // the squares divide exactly, so no truncation occurs in them
    lemma_fmul_small(m, m);
    lemma_fmul_small(-m, -m);
    lemma_fmul_small(r, r);
    lemma_fmul_small(-2 * m, -2 * m);
    assert((-m) * (-m) == m * m) by (nonlinear_arith);
    assert((-2 * m) * (-2 * m) == 4 * (m * m)) by (nonlinear_arith);
    assert(m * m >= 0 && r * r >= 0) by (nonlinear_arith);
    assert(m * m <= 100_000_000_000_000_000_000 && r * r <= 100_000_000_000_000_000_000)
        by (nonlinear_arith)
        requires
            0 <= r < m <= 10_000_000_000,
    {
    }
    assert(-30_000_000_000 <= -2 * m <= 30_000_000_000);
    let mq = (m * m) / s;
    let rq = (r * r) / s;
    lemma_div_is_ordered(m * m, 100_000_000_000_000_000_000, s);
    lemma_div_is_ordered(r * r, 100_000_000_000_000_000_000, s);
    lemma_div_pos_is_pos(m * m, s);
    lemma_div_pos_is_pos(r * r, s);
    assert(100_000_000_000_000_000_000int / 1_000_000int == 100_000_000_000_000);
    lemma_fundamental_div_mod(m * m, s);
    lemma_fundamental_div_mod(r * r, s);
    assert(m * m == s * mq);
    assert(r * r == s * rq);
    assert(vdot(local, local) == mq);
    let c = fsub(vdot(local, local), fmul(r, r));
    assert(c == mq - rq);

    // 4 a c evaluates exactly, and the discriminant is 4 rq
    assert(wf(4 * s));
    lemma_fmul_whole(4, s);
    assert(fmul(fmul(4 * SCALE, s), c) == fmul(4 * SCALE, c));
    lemma_fmul_whole(4, c);
    assert(4 * (m * m) == s * (4 * mq));
    lemma_div_multiples_vanish(4 * mq, s);
    assert(fmul(b, b) == 4 * mq);
    let disc = crate::solver::quad_disc(s, b, c);
    assert(disc == 4 * rq);

    // its square root is exactly 2 r
    assert(disc * s == 4 * (r * r));
    assert((2 * r) * (2 * r) == 4 * (r * r)) by (nonlinear_arith);
    assert((2 * r + 1) * (2 * r + 1) > 4 * (r * r)) by (nonlinear_arith)
        requires
            r >= 0,
    {
    }
    if disc > 0 {
        lemma_sqrt_floor_unique((disc * s) as nat, (2 * r) as nat);
    } else {
        assert(r * r == 0);
        assert(r == 0) by (nonlinear_arith)
            requires
                r * r == 0,
        {
        }
    }
    assert(fsqrt(disc) == 2 * r);

    // both roots divide exactly: m - r and m + r, and the smaller wins
    lemma_fmul_whole(2, s);
    assert(fmul(2 * SCALE, s) == 2 * s);
    let root1 = crate::solver::quad_root1(s, b, c);
    let root2 = crate::solver::quad_root2(s, b, c);
    assert(vstd::math::abs(2 * m - 2 * r) == 2 * (m - r));
    assert(vstd::math::abs(2 * s) == 2 * s);
    assert((2 * (m - r)) * s == (2 * s) * (m - r)) by (nonlinear_arith);
    lemma_div_multiples_vanish(m - r, 2 * s);
    assert(root1 == m - r);
    assert(vstd::math::abs(2 * m + 2 * r) == 2 * (m + r));
    assert((2 * (m + r)) * s == (2 * s) * (m + r)) by (nonlinear_arith);
    lemma_div_multiples_vanish(m + r, 2 * s);
    assert(root2 == m + r);

    // the hit point is on the near surface, where the axis crosses it
    lemma_fmul_comm(s, m - r);
    lemma_fmul_one(m - r);
    assert(vscale(d, m - r) == V3 { x: 0, y: 0, z: m - r });
    assert(vadd(o, V3 { x: 0, y: 0, z: m - r }) == V3 { x: 0, y: 0, z: cz - r });
}

/// Whether a point at offset `w` from the plane centre lies within the
/// square patch: every component of the offset is at most half the
/// side, inclusive.
pub open spec fn plane_within(w: V3, half: int) -> bool {
    -half <= w.x <= half && -half <= w.y <= half && -half <= w.z <= half
}

/// The intersection of a ray with a bounded plane patch: `None` when
/// the ray is parallel to the plane (zero denominator) or the hit
/// falls outside the patch, else the ray-plane distance of either
/// sign and the hit point.
pub open spec fn plane_intersect(center: V3, normal: V3, size: int, o: V3, d: V3) -> Option<
    (int, V3),
> {
    let denom = vdot(d, normal);
    if denom == 0 {
        None
    } else {
        let t = fdiv(vdot(vsub(center, o), normal), denom);
        let hit = vadd(o, vscale(d, t));
        let half = fdiv(size, 2 * SCALE);
        if plane_within(vsub(hit, center), half) {
            Some((t, hit))
        } else {
            None
        }
    }
}

/// The intersection of a ray with a primitive.
pub open spec fn geom_intersect(g: Geometry, o: V3, d: V3) -> Option<(int, V3)> {
    match g {
        Geometry::Sphere { center, radius } => sphere_intersect(center@, radius@, o, d),
        Geometry::Plane { center, normal, size } => plane_intersect(
            center@,
            normal@,
            size@,
            o,
            d,
        ),
    }
}

/// The outward surface direction at a point: for a sphere the
/// normalized offset from the centre, for a plane its fixed normal.
pub open spec fn geom_normal_at(g: Geometry, p: V3) -> V3 {
    match g {
        Geometry::Sphere { center, radius } => vnormalize(vsub(p, center@)),
        Geometry::Plane { center, normal, size } => normal@,
    }
}

/// The anchor point of a primitive: its centre.
pub open spec fn geom_position(g: Geometry) -> V3 {
    match g {
        Geometry::Sphere { center, radius } => center@,
        Geometry::Plane { center, normal, size } => center@,
    }
}

/// Whether two primitives agree on everything but their anchor point.
pub open spec fn geom_same_shape(a: Geometry, b: Geometry) -> bool {
    match (a, b) {
        (
            Geometry::Sphere { center: ca, radius: ra },
            Geometry::Sphere { center: cb, radius: rb },
        ) => ra == rb,
        (
            Geometry::Plane { center: ca, normal: na, size: sa },
            Geometry::Plane { center: cb, normal: nb, size: sb },
        ) => na == nb && sa == sb,
        _ => false,
    }
}

/// The primitive with its anchor point replaced and every other field
/// kept.
pub open spec fn geom_with_position(g: Geometry, p: Vec3) -> Geometry {
    match g {
        Geometry::Sphere { center, radius } => Geometry::Sphere { center: p, radius },
        Geometry::Plane { center, normal, size } => Geometry::Plane { center: p, normal, size },
    }
}

impl Geometry {
    /// The distance along the ray to this primitive and the hit
    /// point, or `None` when the ray misses.  Distances of either
    /// sign are returned; callers reject the ones they do not want.
    pub fn intersect(&self, ray: &Ray) -> (r: Option<(Fx, Vec3)>)
        ensures
            r is Some <==> geom_intersect(*self, ray.origin@, ray.direction@) is Some,
            r is Some ==> (r->0).0@ == (geom_intersect(*self, ray.origin@, ray.direction@)->0).0
                && (r->0).1@ == (geom_intersect(*self, ray.origin@, ray.direction@)->0).1,
    {
        match self {
            Geometry::Sphere { center, radius } => {
                let new_origin = ray.origin.sub(*center);
                let two = Fx::from_int(2);
                let a = Fx::one();
                let b = two.mul(ray.direction.dot(new_origin));
                let c = new_origin.dot(new_origin).sub(radius.mul(*radius));
                match crate::solver::solve_quadratic(a, b, c) {
                    Some(solution) => {
                        let t = if solution.0.raw < solution.1.raw {
                            solution.0
                        } else {
                            solution.1
                        };
                        Some((t, ray.origin.add(ray.direction.scale(t))))
                    },
                    None => None,
                }
            },
            Geometry::Plane { center, normal, size } => {
                let two = Fx::from_int(2);
                let denom = ray.direction.dot(*normal);
                if denom.raw == 0 {
                    return None;
                }
                let t = center.sub(ray.origin).dot(*normal).div(denom);
                let hit = ray.origin.add(ray.direction.scale(t));
                let offset = hit.sub(*center);
                let half = size.div(two);
                if within_half(offset.x, half) && within_half(offset.y, half) && within_half(
                    offset.z,
                    half,
                ) {
                    Some((t, hit))
                } else {
                    None
                }
            },
        }
    }

    /// The outward surface direction at a point on the primitive.
    pub fn normal_at_point(&self, point: Vec3) -> (r: Vec3)
        ensures
            r@ == geom_normal_at(*self, point@),
    {
        match self {
            Geometry::Sphere { center, radius: _ } => point.sub(*center).normalize(),
            Geometry::Plane { center: _, normal, size: _ } => *normal,
        }
    }

    /// The anchor point of the primitive.
    pub fn position(&self) -> (r: Vec3)
        ensures
            r@ == geom_position(*self),
    {
        match self {
            Geometry::Sphere { center, radius: _ } => *center,
            Geometry::Plane { center, normal: _, size: _ } => *center,
        }
    }

    /// Replace the anchor point of the primitive, keeping its shape.
    pub fn set_position(&mut self, p: Vec3)
        ensures
            *final(self) == geom_with_position(*old(self), p),
    {
        match self {
            Geometry::Sphere { center, radius: _ } => {
                *center = p;
            },
            Geometry::Plane { center, normal: _, size: _ } => {
                *center = p;
            },
        }
    }
}

/// Whether a raw offset is within `[-half, half]`, inclusive.
fn within_half(v: Fx, half: Fx) -> (r: bool)
    ensures
        r == (-half@ <= v@ <= half@),
{
    let lo: i128 = -(half.raw as i128);
    lo <= (v.raw as i128) && (v.raw as i128) <= (half.raw as i128)
}

/// A named object: a material and a primitive.
#[derive(Clone, Debug)]
pub struct Object {
    pub name: String,
    pub material: Material,
    pub geometry: Geometry,
}

/// A light source: directional with a fixed direction, or a point
/// light at a position.
#[derive(Debug)]
pub enum Light {
    Direction { intensity: (Fx, Fx, Fx), direction: Vec3 },
    Point { intensity: (Fx, Fx, Fx), position: Vec3 },
}

/// The intensity triple of a light; the shaded point does not affect
/// it (no attenuation with distance).
pub open spec fn light_intensity(l: Light) -> (int, int, int) {
    match l {
        Light::Direction { intensity, direction } => cv3(intensity),
        Light::Point { intensity, position } => cv3(intensity),
    }
}

/// The vector from a shaded point toward a light: the reversed
/// direction of a directional light, or the offset to a point light's
/// position (not normalized).
pub open spec fn light_point_to(l: Light, p: V3) -> V3 {
    match l {
        Light::Direction { intensity, direction } => vneg(direction@),
        Light::Point { intensity, position } => vsub(position@, p),
    }
}

impl Light {
    /// The intensity triple at a shaded point.
    pub fn intensity(&self, _point: Vec3) -> (r: (Fx, Fx, Fx))
        ensures
            cv3(r) == light_intensity(*self),
    {
        match self {
            Light::Direction { intensity, direction: _ } => *intensity,
            Light::Point { intensity, position: _ } => *intensity,
        }
    }

    /// The vector from a shaded point toward the light.
    pub fn point_to_light(&self, point: Vec3) -> (r: Vec3)
        ensures
            r@ == light_point_to(*self, point@),
    {
        match self {
            Light::Direction { intensity: _, direction } => direction.neg(),
            Light::Point { intensity: _, position } => position.sub(point),
        }
    }
}

} // verus!
