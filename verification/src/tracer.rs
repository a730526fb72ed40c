//! The ray tracer: camera basis construction, nearest-hit search,
//! Phong-style shading with hard shadows, bounded recursive
//! reflection, and the per-frame render loop.
//!
//! The camera cannot compute sines, cosines or tangents here, so the
//! pose carries them: `Orientation` holds the sine and cosine of the
//! pitch, yaw and roll angles, and `tan_half_fov` is the tangent of
//! half the vertical field of view.  Every contract is exact in terms
//! of the supplied values.

use vstd::prelude::*;

use crate::fixed::{fadd, fclamp01, fdiv, fmul, fneg, fpow, fsub, sat, Fx, HALF_RAW, SCALE};
use crate::objects::{
    cv3, geom_intersect, geom_normal_at, light_intensity, light_point_to, Geometry, Light,
    Material, Object,
};
use crate::ray::Ray;
use crate::scene::Scene;
use crate::vec3::{
    rotation, vadd, vcross, vdot, vlength, vneg, vnormalize, vscale, vsub, vtransform, vzero,
    Axis, Mat3, V3, Vec3, EPS_RAW,
};

verus! {

/// The spec-level image plane: five points in raw fixed-point values.
pub ghost struct PlaneV {
    pub left: V3,
    pub right: V3,
    pub bottom: V3,
    pub top: V3,
    pub center: V3,
}

/// The image plane: its four edge midpoints and its center, all one
/// world unit in front of the camera.
#[derive(Clone, Copy, Debug)]
pub struct ImagePlane {
    pub left: Vec3,
    pub right: Vec3,
    pub bottom: Vec3,
    pub top: Vec3,
    pub center: Vec3,
}

impl View for ImagePlane {
    type V = PlaneV;

    open spec fn view(&self) -> PlaneV {
        PlaneV {
            left: self.left@,
            right: self.right@,
            bottom: self.bottom@,
            top: self.top@,
            center: self.center@,
        }
    }
}

/// The camera orientation: the sine and cosine of the pitch (about
/// X), yaw (about Y) and roll (about Z) angles, supplied by the
/// caller.
#[derive(Clone, Copy, Debug)]
pub struct Orientation {
    pub sin_x: Fx,
    pub cos_x: Fx,
    pub sin_y: Fx,
    pub cos_y: Fx,
    pub sin_z: Fx,
    pub cos_z: Fx,
}

/// A recorded nearest intersection: the distance along the ray, the
/// hit point, and the index of the hit object in the scene's list.
#[derive(Clone, Copy, Debug)]
pub struct Hit {
    pub distance: Fx,
    pub point: Vec3,
    pub index: usize,
}

/// The renderer: camera pose, projection parameters, output size in
/// pixels, and the scene to render.
#[derive(Debug)]
pub struct RayTracer {
    pub camera: Vec3,
    pub rotation: Orientation,
    pub tan_half_fov: Fx,
    pub width: u32,
    pub height: u32,
    pub scene: Scene,
}

/// The canonical Y axis as a raw fixed-point vector.
pub open spec fn unit_y() -> V3 {
    V3 { x: 0, y: SCALE as int, z: 0 }
}

/// The canonical Z axis as a raw fixed-point vector.
pub open spec fn unit_z() -> V3 {
    V3 { x: 0, y: 0, z: SCALE as int }
}

/// The camera's forward vector: the canonical Z axis rotated through
/// the negated pitch and then the negated yaw.
pub open spec fn forward_model(rt: RayTracer) -> V3 {
    vtransform(
        vtransform(unit_z(), rotation(Axis::X, fneg(rt.rotation.sin_x@), rt.rotation.cos_x@)),
        rotation(Axis::Y, fneg(rt.rotation.sin_y@), rt.rotation.cos_y@),
    )
}

/// The camera's right vector: the canonical Y axis rotated through
/// the negated roll, crossed with the forward vector, normalized.
pub open spec fn right_model(rt: RayTracer) -> V3 {
    vnormalize(
        vcross(
            vtransform(unit_y(), rotation(Axis::Z, fneg(rt.rotation.sin_z@), rt.rotation.cos_z@)),
            forward_model(rt),
        ),
    )
}

/// The camera's up vector: forward crossed with right, normalized.
pub open spec fn up_model(rt: RayTracer) -> V3 {
    vnormalize(vcross(forward_model(rt), right_model(rt)))
}

/// The image plane for a given aspect ratio: its center is the camera
/// position minus the forward vector (the camera looks down the
/// negated forward direction), its half extents are the tangent of
/// half the field of view and that tangent scaled by the aspect
/// ratio.
pub open spec fn plane_model(rt: RayTracer, aspect: int) -> PlaneV {
    let width = fmul(2 * SCALE, rt.tan_half_fov@);
    let half_width = fdiv(width, 2 * SCALE);
    let half_height = fdiv(fmul(width, aspect), 2 * SCALE);
    let right = right_model(rt);
    let up = up_model(rt);
    let center = vsub(rt.camera@, forward_model(rt));
    PlaneV {
        left: vsub(center, vscale(right, half_width)),
        right: vadd(center, vscale(right, half_width)),
        bottom: vsub(center, vscale(up, half_height)),
        top: vadd(center, vscale(up, half_height)),
        center,
    }
}

/// The reflection of `r` about the surface normal `n`:
/// `2 * (n . r) * n - r`.
pub open spec fn reflect_model(r: V3, n: V3) -> V3 {
    vsub(vscale(vscale(n, vdot(n, r)), 2 * SCALE), r)
}

impl RayTracer {
    /// The camera's forward basis vector.
    pub fn forward(&self) -> (r: Vec3)
        ensures
            r@ == forward_model(*self),
    {
        Vec3::new(Fx::zero(), Fx::zero(), Fx::one()).transform_point(
            &Mat3::create_rotation(Axis::X, self.rotation.sin_x.neg(), self.rotation.cos_x),
        ).transform_point(
            &Mat3::create_rotation(Axis::Y, self.rotation.sin_y.neg(), self.rotation.cos_y),
        )
    }

    /// The camera's right basis vector.
    pub fn right(&self) -> (r: Vec3)
        ensures
            r@ == right_model(*self),
    {
        let temp = Vec3::new(Fx::zero(), Fx::one(), Fx::zero()).transform_point(
            &Mat3::create_rotation(Axis::Z, self.rotation.sin_z.neg(), self.rotation.cos_z),
        );
        temp.cross(self.forward()).normalize()
    }

    /// The camera's up basis vector.
    pub fn up(&self) -> (r: Vec3)
        ensures
            r@ == up_model(*self),
    {
        self.forward().cross(self.right()).normalize()
    }

    /// The image plane for the given aspect ratio (height over
    /// width), one world unit in front of the camera.
    pub fn get_image_plane(&self, aspect_ratio: Fx) -> (r: ImagePlane)
        ensures
            r@ == plane_model(*self, aspect_ratio@),
    {
        let two = Fx::from_int(2);
        let width = two.mul(self.tan_half_fov);
        let half_width = width.div(two);
        let height = width.mul(aspect_ratio);
        let half_height = height.div(two);

        let right = self.right();
        let up = self.up();
        let forward = self.forward();

        // the plane is one unit away from the camera, against the
        // forward direction: the camera looks down -forward
        let center = self.camera.sub(forward);

        ImagePlane {
            left: center.sub(right.scale(half_width)),
            right: center.add(right.scale(half_width)),
            bottom: center.sub(up.scale(half_height)),
            top: center.add(up.scale(half_height)),
            center,
        }
    }
}

/// The reflection of `ray` about `surface_normal`.
fn reflect_ray(ray: Vec3, surface_normal: Vec3) -> (r: Vec3)
    ensures
        r@ == reflect_model(ray@, surface_normal@),
{
    let two = Fx::from_int(2);
    surface_normal.scale(surface_normal.dot(ray)).scale(two).sub(ray)
}

/// The nearest acceptable intersection of a ray with a list of
/// objects: hits closer along the ray than the epsilon threshold are
/// ignored (they are the surface the ray starts on), a strictly
/// smaller distance displaces an earlier hit, and on exactly equal
/// distances the earliest object in the list wins.  The result is the
/// winning object's index, the distance, and the hit point.
pub open spec fn hit_model(objects: Seq<Object>, o: V3, d: V3) -> Option<(int, int, V3)>
    decreases objects.len(),
{
    if objects.len() == 0 {
        None
    } else {
        let prev = hit_model(objects.drop_last(), o, d);
        let i = objects.len() - 1;
        match geom_intersect(objects.last().geometry, o, d) {
            Some(hit) => {
                if hit.0 < EPS_RAW {
                    prev
                } else {
                    match prev {
                        Some(ph) => if hit.0 < ph.1 {
                            Some((i as int, hit.0, hit.1))
                        } else {
                            prev
                        },
                        None => Some((i as int, hit.0, hit.1)),
                    }
                }
            },
            None => prev,
        }
    }
}

/// The winning index of a nearest hit is an index into the list.
pub proof fn lemma_hit_model_in_range(objects: Seq<Object>, o: V3, d: V3)
    ensures
        hit_model(objects, o, d) is Some ==> 0 <= (hit_model(objects, o, d)->0).0
            < objects.len(),
    decreases objects.len(),
{
    if objects.len() > 0 {
        lemma_hit_model_in_range(objects.drop_last(), o, d);
    }
}

/// Whether a recorded hit agrees with the spec-level nearest hit.
pub open spec fn hit_matches(h: Option<Hit>, m: Option<(int, int, V3)>) -> bool {
    match (h, m) {
        (Option::None, Option::None) => true,
        (Option::Some(hh), Option::Some(mm)) => hh.index as int == mm.0 && hh.distance@ == mm.1
            && hh.point@ == mm.2,
        _ => false,
    }
}

/// Whether a light is shadowed at a point: the shadow ray from the
/// point toward the light hits some object (hits nearer than the
/// epsilon threshold do not count, so the surface itself casts no
/// shadow on the point).
pub open spec fn light_shadowed(objects: Seq<Object>, l: Light, point: V3) -> bool {
    hit_model(objects, point, vnormalize(light_point_to(l, point))) is Some
}

/// The contribution of one unshadowed light at a point: its intensity
/// scaled by the sum of the diffuse strength (the cosine between the
/// normal and the direction to the light, clamped to `[0, 1]`) and
/// the specular strength (the clamped cosine between the reflected
/// light direction and the direction to the camera, raised to the
/// material's specular exponent).
pub open spec fn light_contribution(
    l: Light,
    point: V3,
    normal: V3,
    camera_pos: V3,
    e: nat,
) -> (int, int, int) {
    let ptl = light_point_to(l, point);
    let strength = fclamp01(fdiv(vdot(normal, ptl), fmul(vlength(normal), vlength(ptl))));
    let refl = reflect_model(vnormalize(ptl), normal);
    let camv = vsub(camera_pos, point);
    let specular = fpow(
        fclamp01(fdiv(vdot(refl, camv), fmul(vlength(refl), vlength(camv)))),
        e,
    );
    let factor = fadd(strength, specular);
    let it = light_intensity(l);
    (fmul(it.0, factor), fmul(it.1, factor), fmul(it.2, factor))
}

/// The illumination at a point: the ambient light plus, for each
/// light in order that is not shadowed, that light's contribution.
pub open spec fn shade_model(
    objects: Seq<Object>,
    lights: Seq<Light>,
    point: V3,
    normal: V3,
    camera_pos: V3,
    e: nat,
    ambient: (int, int, int),
) -> (int, int, int)
    decreases lights.len(),
{
    if lights.len() == 0 {
        ambient
    } else {
        let prev = shade_model(objects, lights.drop_last(), point, normal, camera_pos, e, ambient);
        let l = lights.last();
        if light_shadowed(objects, l, point) {
            prev
        } else {
            let c = light_contribution(l, point, normal, camera_pos, e);
            (fadd(prev.0, c.0), fadd(prev.1, c.1), fadd(prev.2, c.2))
        }
    }
}

impl RayTracer {
    /// The nearest acceptable intersection of the ray with the
    /// scene's objects: the index of the winning object and the hit
    /// point, or `None` when the ray hits nothing.
    pub fn ray_hit(&self, ray: &Ray) -> (r: Option<(usize, Vec3)>)
        ensures
            r is Some <==> hit_model(self.scene.objects@, ray.origin@, ray.direction@) is Some,
            r is Some ==> {
                let m = hit_model(self.scene.objects@, ray.origin@, ray.direction@)->0;
                &&& (r->0).0 as int == m.0
                &&& (r->0).1@ == m.2
                &&& (r->0).0 < self.scene.objects@.len()
            },
    {
        let ghost o = ray.origin@;
        let ghost d = ray.direction@;
        let mut hit: Option<Hit> = None;
        let n = self.scene.objects.len();
        let mut i: usize = 0;
        while i < n
            invariant
                i <= n,
                n == self.scene.objects@.len(),
                hit_matches(hit, hit_model(self.scene.objects@.take(i as int), o, d)),
                hit is Some ==> (hit->0).index < i,
                o == ray.origin@,
                d == ray.direction@,
            decreases n - i,
        {
            match self.scene.objects[i].geometry.intersect(ray) {
                Some((distance, hit_point)) => {
                    if distance.raw >= EPS_RAW {
                        match &hit {
                            Some(h) => {
                                if distance.raw < h.distance.raw {
                                    hit = Some(Hit { distance, point: hit_point, index: i });
                                }
                            },
                            None => {
                                hit = Some(Hit { distance, point: hit_point, index: i });
                            },
                        }
                    }
                },
                None => {},
            }
            proof {
                assert(self.scene.objects@.take(i as int + 1).drop_last() =~= self.scene.objects@
                    .take(i as int));
                assert(self.scene.objects@.take(i as int + 1).last() == self.scene.objects@[
                    i as int]);
            }
            i = i + 1;
        }
        proof {
            assert(self.scene.objects@.take(n as int) =~= self.scene.objects@);
        }
        match hit {
            Some(h) => Some((h.index, h.point)),
            None => None,
        }
    }

    /// The illumination at a point: ambient light plus the
    /// contribution of every light whose shadow ray from the point
    /// reaches it without hitting an object.
    pub fn calculate_light(
        &self,
        point: Vec3,
        normal: Vec3,
        camera_pos: Vec3,
        material: &Material,
    ) -> (r: (Fx, Fx, Fx))
        ensures
            cv3(r) == shade_model(
                self.scene.objects@,
                self.scene.lights@,
                point@,
                normal@,
                camera_pos@,
                material.specular as nat,
                cv3(self.scene.ambient_light),
            ),
    {
        let mut result = (
            self.scene.ambient_light.0,
            self.scene.ambient_light.1,
            self.scene.ambient_light.2,
        );
        let n = self.scene.lights.len();
        let mut li: usize = 0;
        while li < n
            invariant
                li <= n,
                n == self.scene.lights@.len(),
                cv3(result) == shade_model(
                    self.scene.objects@,
                    self.scene.lights@.take(li as int),
                    point@,
                    normal@,
                    camera_pos@,
                    material.specular as nat,
                    cv3(self.scene.ambient_light),
                ),
            decreases n - li,
        {
            let light = &self.scene.lights[li];
            let point_to_light = light.point_to_light(point);

            // the light is ignored when the point lies in shadow
            let shadow_hit = self.ray_hit(
                &Ray { origin: point, direction: point_to_light.normalize() },
            );
            if shadow_hit.is_none() {
                let intensity = light.intensity(point);

                let strength = normal.dot(point_to_light).div(
                    normal.length().mul(point_to_light.length()),
                ).clamp01();

                let reflection_vector = reflect_ray(point_to_light.normalize(), normal);
                let camera_vector = camera_pos.sub(point);

                let specular = reflection_vector.dot(camera_vector).div(
                    reflection_vector.length().mul(camera_vector.length()),
                ).clamp01().pow(material.specular);

                let factor = strength.add(specular);
                result = (
                    result.0.add(intensity.0.mul(factor)),
                    result.1.add(intensity.1.mul(factor)),
                    result.2.add(intensity.2.mul(factor)),
                );
            }
            proof {
                assert(self.scene.lights@.take(li as int + 1).drop_last() =~= self.scene.lights@
                    .take(li as int));
                assert(self.scene.lights@.take(li as int + 1).last() == self.scene.lights@[
                    li as int]);
            }
            li = li + 1;
        }
        proof {
            assert(self.scene.lights@.take(n as int) =~= self.scene.lights@);
        }
        result
    }

    /// The colour seen along a ray, at the given recursion depth: the
    /// background colour when the ray hits nothing; else the local
    /// shading of the nearest hit (illumination times the material
    /// colour, channel-wise), blended with the recursively traced
    /// reflection when the material is metallic and the depth is
    /// below the scene's reflection limit.
    pub fn trace_ray(&self, ray: &Ray, depth: u32) -> (r: (Fx, Fx, Fx))
        ensures
            cv3(r) == trace_model(self.scene, self.camera@, ray.origin@, ray.direction@,
                depth as int),
        decreases self.scene.reflection_limit - depth,
    {
        proof {
            lemma_hit_model_in_range(self.scene.objects@, ray.origin@, ray.direction@);
        }
        match self.ray_hit(ray) {
            Some((index, hit_point)) => {
                let object = &self.scene.objects[index];
                let normal = object.geometry.normal_at_point(hit_point);

                let brightness = self.calculate_light(hit_point, normal, self.camera,
                    &object.material);
                let local_colour = (
                    brightness.0.mul(object.material.colour.0),
                    brightness.1.mul(object.material.colour.1),
                    brightness.2.mul(object.material.colour.2),
                );

                if object.material.metallic.raw <= 0 || depth >= self.scene.reflection_limit {
                    return local_colour;
                }

                let reflection_ray = Ray {
                    origin: hit_point,
                    direction: reflect_ray(ray.direction.neg(), normal),
                };
                let reflected_colour = self.trace_ray(&reflection_ray, depth + 1);

                let one = Fx::one();
                let m = object.material.metallic;
                (
                    local_colour.0.mul(one.sub(m)).add(reflected_colour.0.mul(m)),
                    local_colour.1.mul(one.sub(m)).add(reflected_colour.1.mul(m)),
                    local_colour.2.mul(one.sub(m)).add(reflected_colour.2.mul(m)),
                )
            },
            None => self.scene.background_colour,
        }
    }
}

/// The colour of one pixel: the pixel centre is mapped to screen
/// space (`(x + 1/2) / width`, `(y + 1/2) / height`), offset from the
/// top-left corner of the image plane along the right and the negated
/// up vectors, and the primary ray from the camera through that point
/// is traced at depth zero.
pub open spec fn render_pixel_model(
    rt: RayTracer,
    x: int,
    y: int,
    top_left: V3,
    width_world: int,
    height_world: int,
    right: V3,
    up: V3,
) -> (int, int, int) {
    let xs = fdiv(fadd(sat(x * SCALE), HALF_RAW as int), sat(rt.width as int * SCALE));
    let ys = fdiv(fadd(sat(y * SCALE), HALF_RAW as int), sat(rt.height as int * SCALE));
    let x_offset = vscale(right, fmul(xs, width_world));
    let y_offset = vscale(vneg(up), fmul(ys, height_world));
    let pixel_world = vadd(vadd(top_left, x_offset), y_offset);
    let dir = vnormalize(vsub(pixel_world, rt.camera@));
    trace_model(rt.scene, rt.camera@, rt.camera@, dir, 0)
}

/// The colour of the pixel with flat row-major index `i` of a full
/// frame: the image plane is built for the frame's aspect ratio, its
/// top-left corner and world-space extents are derived, and the pixel
/// at column `i % width`, row `i / width` is rendered.
pub open spec fn rendered_pixel(rt: RayTracer, i: int) -> (int, int, int) {
    let aspect = fdiv(sat(rt.height as int * SCALE), sat(rt.width as int * SCALE));
    let plane = plane_model(rt, aspect);
    let top_left = vsub(vadd(plane.left, plane.top), plane.center);
    let width_world = vlength(vsub(plane.right, plane.left));
    let height_world = vlength(vsub(plane.top, plane.bottom));
    render_pixel_model(
        rt,
        i % (rt.width as int),
        i / (rt.width as int),
        top_left,
        width_world,
        height_world,
        right_model(rt),
        up_model(rt),
    )
}

/// An output channel byte: a raw colour value scaled by 255,
/// truncated, and clamped into `[0, 255]`.
pub open spec fn channel_byte(v: int) -> int {
    if v <= 0 {
        0
    } else {
        let q = v * 255 / (SCALE as int);
        if q > 255 {
            255
        } else {
            q
        }
    }
}

/// Convert a raw colour value to an output byte.
fn to_channel(v: Fx) -> (r: u8)
    ensures
        r as int == channel_byte(v@),
{
    if v.raw <= 0 {
        0
    } else {
        let q: u128 = ((v.raw as u128) * 255) / (SCALE as u128);
        if q > 255 {
            255
        } else {
            q as u8
        }
    }
}

impl RayTracer {
    /// The colour of the pixel at column `x`, row `y`, given the
    /// frame's precomputed image-plane corner, world-space extents
    /// and camera basis vectors.
    pub fn render_pixel(
        &self,
        x: u32,
        y: u32,
        top_left: Vec3,
        width_world_space: Fx,
        height_world_space: Fx,
        right: Vec3,
        up: Vec3,
    ) -> (r: (Fx, Fx, Fx))
        ensures
            cv3(r) == render_pixel_model(
                *self,
                x as int,
                y as int,
                top_left@,
                width_world_space@,
                height_world_space@,
                right@,
                up@,
            ),
    {
        let half = Fx::from_raw(HALF_RAW);
        let x_screen_space = Fx::from_int(x as i64).add(half).div(Fx::from_int(self.width as i64));
        let y_screen_space = Fx::from_int(y as i64).add(half).div(
            Fx::from_int(self.height as i64),
        );

        let x_offset = right.scale(x_screen_space.mul(width_world_space));
        // scaled along -up because it is an offset downward
        let y_offset = up.neg().scale(y_screen_space.mul(height_world_space));

        let pixel_world_space = top_left.add(x_offset).add(y_offset);

        let direction = pixel_world_space.sub(self.camera).normalize();

        let ray = Ray { origin: self.camera, direction };

        self.trace_ray(&ray, 0)
    }

    /// Render the whole frame into a flat RGBA buffer, row major,
    /// four bytes per pixel with the alpha byte always 255.  Each
    /// colour channel is scaled to `[0, 255]` with truncation.
    #[verifier::rlimit(100)]
    pub fn rs_render(&self) -> (buf: Vec<u8>)
        requires
            (self.width as int) * (self.height as int) * 4 <= usize::MAX,
        ensures
            buf@.len() == (self.width as int) * (self.height as int) * 4,
            forall|i: int|
                #![trigger rendered_pixel(*self, i)]
                0 <= i < (self.width as int) * (self.height as int) ==> {
                    &&& buf@[4 * i] as int == channel_byte(rendered_pixel(*self, i).0)
                    &&& buf@[4 * i + 1] as int == channel_byte(rendered_pixel(*self, i).1)
                    &&& buf@[4 * i + 2] as int == channel_byte(rendered_pixel(*self, i).2)
                    &&& buf@[4 * i + 3] == 255u8
                },
    {
        let w = self.width;
        let h = self.height;
        let aspect_ratio = Fx::from_int(h as i64).div(Fx::from_int(w as i64));
        let image_plane = self.get_image_plane(aspect_ratio);

        let top_left_point = image_plane.left.add(image_plane.top).sub(image_plane.center);

        let width_world_space = image_plane.right.sub(image_plane.left).length();
        let height_world_space = image_plane.top.sub(image_plane.bottom).length();
        let right = self.right();
        let up = self.up();

        proof {
            assert((w as int) * (h as int) * 4 <= usize::MAX ==> (w as int) * (h as int)
                <= usize::MAX) by (nonlinear_arith);
        }
        let total: usize = (w as usize) * (h as usize);
        let mut buf: Vec<u8> = Vec::new();
        let mut i: usize = 0;
        while i < total
            invariant
                i <= total,
                total == (self.width as int) * (self.height as int),
                w == self.width,
                h == self.height,
                total * 4 <= usize::MAX,
                buf@.len() == 4 * i,
                aspect_ratio@ == fdiv(
                    sat(self.height as int * SCALE),
                    sat(self.width as int * SCALE),
                ),
                image_plane@ == plane_model(*self, aspect_ratio@),
                top_left_point@ == vsub(
                    vadd(image_plane@.left, image_plane@.top),
                    image_plane@.center,
                ),
                width_world_space@ == vlength(vsub(image_plane@.right, image_plane@.left)),
                height_world_space@ == vlength(vsub(image_plane@.top, image_plane@.bottom)),
                right@ == right_model(*self),
                up@ == up_model(*self),
                forall|j: int|
                    #![trigger rendered_pixel(*self, j)]
                    0 <= j < i ==> {
                        &&& buf@[4 * j] as int == channel_byte(rendered_pixel(*self, j).0)
                        &&& buf@[4 * j + 1] as int == channel_byte(rendered_pixel(*self, j).1)
                        &&& buf@[4 * j + 2] as int == channel_byte(rendered_pixel(*self, j).2)
                        &&& buf@[4 * j + 3] == 255u8
                    },
            decreases total - i,
        {
            proof {
                assert(w > 0) by (nonlinear_arith)
                    requires
                        i < total,
                        total == (w as int) * (h as int),
                        0 <= i,
                {
                }
                vstd::arithmetic::div_mod::lemma_fundamental_div_mod(i as int, w as int);
                assert((i as int) / (w as int) < h as int) by (nonlinear_arith)
                    requires
                        0 <= i < (w as int) * (h as int),
                        0 < w as int,
                {
                }
            }
            let x: usize = i % (w as usize);
            let y: usize = i / (w as usize);

            let pixel = self.render_pixel(
                x as u32,
                y as u32,
                top_left_point,
                width_world_space,
                height_world_space,
                right,
                up,
            );

            buf.push(to_channel(pixel.0));
            buf.push(to_channel(pixel.1));
            buf.push(to_channel(pixel.2));
            buf.push(255u8);

            proof {
                assert(rendered_pixel(*self, i as int) == render_pixel_model(
                    *self,
                    x as int,
                    y as int,
                    top_left_point@,
                    width_world_space@,
                    height_world_space@,
                    right@,
                    up@,
                ));
            }
            i = i + 1;
        }
        proof {
            assert(buf@.len() == (self.width as int) * (self.height as int) * 4);
        }
        buf
    }
}

/// The energy blend of a local colour with a reflected colour:
/// `local * (1 - metallic) + reflected * metallic`, channel-wise.
/// The blend deliberately loses energy; it is not renormalized.
pub open spec fn blend_colour(local: (int, int, int), refl: (int, int, int), m: int) -> (
    int,
    int,
    int,
) {
    (
        fadd(fmul(local.0, fsub(SCALE as int, m)), fmul(refl.0, m)),
        fadd(fmul(local.1, fsub(SCALE as int, m)), fmul(refl.1, m)),
        fadd(fmul(local.2, fsub(SCALE as int, m)), fmul(refl.2, m)),
    )
}

/// The colour seen along a ray at a recursion depth; see
/// [`RayTracer::trace_ray`].  The recursion stops when the material
/// is not metallic or the depth has reached the scene's reflection
/// limit.
pub open spec fn trace_model(scene: Scene, camera_pos: V3, o: V3, d: V3, depth: int) -> (
    int,
    int,
    int,
)
    decreases scene.reflection_limit - depth,
{
    match hit_model(scene.objects@, o, d) {
        None => cv3(scene.background_colour),
        Some(h) => {
            let obj = scene.objects@[h.0];
            let normal = geom_normal_at(obj.geometry, h.2);
            let brightness = shade_model(
                scene.objects@,
                scene.lights@,
                h.2,
                normal,
                camera_pos,
                obj.material.specular as nat,
                cv3(scene.ambient_light),
            );
            let local = (
                fmul(brightness.0, obj.material.colour.0@),
                fmul(brightness.1, obj.material.colour.1@),
                fmul(brightness.2, obj.material.colour.2@),
            );
            if obj.material.metallic@ <= 0 || depth >= scene.reflection_limit {
                local
            } else {
                let refl = trace_model(
                    scene,
                    camera_pos,
                    h.2,
                    reflect_model(vneg(d), normal),
                    depth + 1,
                );
                blend_colour(local, refl, obj.material.metallic@)
            }
        },
    }
}

/// For a fully metallic material the blended output colour is the
/// reflected colour exactly, for any representable reflected colour.
pub proof fn lemma_blend_metallic_one(local: (int, int, int), refl: (int, int, int))
    requires
        crate::fixed::wf(refl.0),
        crate::fixed::wf(refl.1),
        crate::fixed::wf(refl.2),
    ensures
        blend_colour(local, refl, SCALE as int) == refl,
{
    crate::fixed::lemma_fmul_zero(local.0);
    crate::fixed::lemma_fmul_zero(local.1);
    crate::fixed::lemma_fmul_zero(local.2);
    crate::fixed::lemma_fmul_one(refl.0);
    crate::fixed::lemma_fmul_one(refl.1);
    crate::fixed::lemma_fmul_one(refl.2);
}

/// For a metallic factor of zero the blended output colour is the
/// local shading colour exactly, for any representable local colour.
/// (The tracer does not even blend in that case: it returns the local
/// colour before recursing.)
pub proof fn lemma_blend_metallic_zero(local: (int, int, int), refl: (int, int, int))
    requires
        crate::fixed::wf(local.0),
        crate::fixed::wf(local.1),
        crate::fixed::wf(local.2),
    ensures
        blend_colour(local, refl, 0) == local,
{
    crate::fixed::lemma_fmul_one(local.0);
    crate::fixed::lemma_fmul_one(local.1);
    crate::fixed::lemma_fmul_one(local.2);
    crate::fixed::lemma_fmul_zero(refl.0);
    crate::fixed::lemma_fmul_zero(refl.1);
    crate::fixed::lemma_fmul_zero(refl.2);
}

/// A scene with a single light that is shadowed at a point
/// illuminates that point with the ambient light alone: the shadowed
/// light contributes nothing, diffuse or specular.
pub proof fn lemma_shadowed_light_ambient(
    objects: Seq<Object>,
    lights: Seq<Light>,
    point: V3,
    normal: V3,
    camera_pos: V3,
    e: nat,
    ambient: (int, int, int),
)
    requires
        lights.len() == 1,
        light_shadowed(objects, lights[0], point),
    ensures
        shade_model(objects, lights, point, normal, camera_pos, e, ambient) == ambient,
{
    reveal_with_fuel(shade_model, 2);
    assert(lights.last() == lights[0]);
    assert(lights.drop_last().len() == 0);
}

/// An opaque sphere directly between a point light and the shaded
/// point blocks it: with the point at the origin, the light one unit
/// along the Z axis, and a sphere strictly between them on that axis,
/// the illumination is the ambient light alone, whatever the normal,
/// camera position, specular exponent or light intensity — the
/// blocked light contributes nothing, diffuse or specular.  Stated
/// for a sphere whose centre distance and radius have grid-exact
/// squares, as in [`crate::objects::lemma_head_on_hit_distance`].
pub proof fn lemma_occluder_blocks_point_light(
    objects: Seq<Object>,
    lights: Seq<Light>,
    cz: int,
    r: int,
    normal: V3,
    camera_pos: V3,
    e: nat,
    ambient: (int, int, int),
)
    requires
        objects.len() == 1,
        objects[0].geometry matches Geometry::Sphere { center, radius } && center@ == (V3 {
            x: 0,
            y: 0,
            z: cz,
        }) && radius@ == r,
        lights.len() == 1,
        lights[0] matches Light::Point { intensity, position } && position@ == (V3 {
            x: 0,
            y: 0,
            z: SCALE as int,
        }),
        0 <= r,
        r + EPS_RAW <= cz,
        cz + r < SCALE,
        (cz * cz) % (SCALE as int) == 0,
        (r * r) % (SCALE as int) == 0,
    ensures
        shade_model(objects, lights, vzero(), normal, camera_pos, e, ambient) == ambient,
{
    let s = SCALE as int;
    let l = lights[0];
    let point = vzero();
    let ptl = light_point_to(l, point);
    assert(ptl == V3 { x: 0, y: 0, z: s });

    // normalizing the unit Z vector gives it back exactly
    crate::fixed::lemma_fmul_zero(0);
    crate::fixed::lemma_fmul_zero(s);
    crate::fixed::lemma_fmul_one(s);
    assert(vdot(ptl, ptl) == s);
    assert(s * s < (s + 1) * (s + 1)) by (nonlinear_arith)
        requires
            s >= 0,
    {
    }
    crate::fixed::lemma_sqrt_floor_unique((s * s) as nat, s as nat);
    assert(crate::fixed::fsqrt(s) == s);
    vstd::arithmetic::div_mod::lemma_div_multiples_vanish(s, s);
    assert(crate::fixed::fdiv(s, s) == s);
    let dir = vnormalize(ptl);
    assert(dir == V3 { x: 0, y: 0, z: s });

    // the shadow ray toward the light hits the sphere between
    crate::objects::lemma_head_on_hit_distance(0, cz, r);
    reveal_with_fuel(hit_model, 2);
    assert(objects.drop_last().len() == 0);
    assert(objects.last() == objects[0]);
    assert(geom_intersect(objects[0].geometry, point, dir) == Some(
        (cz - r, V3 { x: 0, y: 0, z: cz - r }),
    ));
    assert(cz - r >= EPS_RAW);
    assert(hit_model(objects, point, dir) is Some);
    assert(light_shadowed(objects, l, point));

    lemma_shadowed_light_ambient(objects, lights, point, normal, camera_pos, e, ambient);
}

/// Whether two scenes agree on everything except the objects'
/// metallic factors.
pub open spec fn same_but_metallic(s1: Scene, s2: Scene) -> bool {
    &&& s1.lights@ == s2.lights@
    &&& s1.background_colour == s2.background_colour
    &&& s1.ambient_light == s2.ambient_light
    &&& s1.reflection_limit == s2.reflection_limit
    &&& s1.objects@.len() == s2.objects@.len()
    &&& forall|j: int|
        0 <= j < s1.objects@.len() ==> {
            &&& (#[trigger] s1.objects@[j]).geometry == s2.objects@[j].geometry
            &&& s1.objects@[j].material.colour == s2.objects@[j].material.colour
            &&& s1.objects@[j].material.specular == s2.objects@[j].material.specular
        }
}

/// The nearest hit reads only the objects' geometry, so two lists
/// that agree on geometry agree on the hit.
pub proof fn lemma_hit_model_same_geometry(o1: Seq<Object>, o2: Seq<Object>, o: V3, d: V3)
    requires
        o1.len() == o2.len(),
        forall|j: int| 0 <= j < o1.len() ==> (#[trigger] o1[j]).geometry == o2[j].geometry,
    ensures
        hit_model(o1, o, d) == hit_model(o2, o, d),
    decreases o1.len(),
{
    if o1.len() > 0 {
        lemma_hit_model_same_geometry(o1.drop_last(), o2.drop_last(), o, d);
        assert(o1.last().geometry == o2.last().geometry);
    }
}

/// The illumination reads the objects only through shadow rays, so
/// two lists that agree on geometry agree on the illumination.
pub proof fn lemma_shade_model_same_geometry(
    o1: Seq<Object>,
    o2: Seq<Object>,
    lights: Seq<Light>,
    point: V3,
    normal: V3,
    camera_pos: V3,
    e: nat,
    ambient: (int, int, int),
)
    requires
        o1.len() == o2.len(),
        forall|j: int| 0 <= j < o1.len() ==> (#[trigger] o1[j]).geometry == o2[j].geometry,
    ensures
        shade_model(o1, lights, point, normal, camera_pos, e, ambient) == shade_model(
            o2,
            lights,
            point,
            normal,
            camera_pos,
            e,
            ambient,
        ),
    decreases lights.len(),
{
    if lights.len() > 0 {
        lemma_shade_model_same_geometry(
            o1,
            o2,
            lights.drop_last(),
            point,
            normal,
            camera_pos,
            e,
            ambient,
        );
        lemma_hit_model_same_geometry(
            o1,
            o2,
            point,
            vnormalize(light_point_to(lights.last(), point)),
        );
    }
}

/// With a reflection limit of zero the recursion never starts, so the
/// objects' metallic factors have no effect: the traced colour equals
/// that of the same scene with any other metallic factors — a purely
/// diffuse render of the same geometry.
pub proof fn lemma_reflection_limit_zero(s1: Scene, s2: Scene, camera_pos: V3, o: V3, d: V3)
    requires
        same_but_metallic(s1, s2),
        s1.reflection_limit == 0,
    ensures
        trace_model(s1, camera_pos, o, d, 0) == trace_model(s2, camera_pos, o, d, 0),
{
    lemma_hit_model_same_geometry(s1.objects@, s2.objects@, o, d);
    match hit_model(s1.objects@, o, d) {
        None => {},
        Some(h) => {
            lemma_hit_model_in_range(s1.objects@, o, d);
            let obj1 = s1.objects@[h.0];
            let normal = geom_normal_at(obj1.geometry, h.2);
            lemma_shade_model_same_geometry(
                s1.objects@,
                s2.objects@,
                s1.lights@,
                h.2,
                normal,
                camera_pos,
                obj1.material.specular as nat,
                cv3(s1.ambient_light),
            );
        },
    }
}

} // verus!
