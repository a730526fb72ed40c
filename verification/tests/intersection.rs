use raytracer::{solve_quadratic, Fx, Geometry, Light, Ray, Vec3};

fn fx(v: f64) -> Fx {
    Fx::from_raw((v * 1_000_000.0).round() as i64)
}

fn v3(x: f64, y: f64, z: f64) -> Vec3 {
    Vec3::new(fx(x), fx(y), fx(z))
}

#[test]
fn quadratic_with_two_real_roots() {
    // x*x - 3*x + 2 has roots 1 and 2
    let r = solve_quadratic(fx(1.0), fx(-3.0), fx(2.0)).expect("discriminant is positive");
    assert_eq!(r.0.raw(), 1_000_000);
    assert_eq!(r.1.raw(), 2_000_000);
}

#[test]
fn quadratic_with_negative_discriminant() {
    // x*x + 1 has no real root
    assert!(solve_quadratic(fx(1.0), fx(0.0), fx(1.0)).is_none());
}

#[test]
fn ray_at_sphere_center_hits_at_distance_minus_radius() {
    // aimed straight at the centre from distance 5: hit at 5 - 1 = 4
    let sphere = Geometry::Sphere { center: v3(0.0, 0.0, 0.0), radius: fx(1.0) };
    let ray = Ray { origin: v3(0.0, 0.0, -5.0), direction: v3(0.0, 0.0, 1.0) };
    let (t, point) = sphere.intersect(&ray).expect("the ray hits the sphere");
    assert_eq!(t.raw(), 4_000_000);
    assert_eq!(point.x.raw(), 0);
    assert_eq!(point.y.raw(), 0);
    assert_eq!(point.z.raw(), -1_000_000);
}

#[test]
fn ray_with_offset_beyond_radius_misses() {
    let sphere = Geometry::Sphere { center: v3(0.0, 0.0, 0.0), radius: fx(1.0) };
    let grazing_miss = Ray { origin: v3(1.5, 0.0, -5.0), direction: v3(0.0, 0.0, 1.0) };
    assert!(sphere.intersect(&grazing_miss).is_none());
    let far_miss = Ray { origin: v3(20.0, 0.0, -5.0), direction: v3(0.0, 0.0, 1.0) };
    assert!(sphere.intersect(&far_miss).is_none());
}

#[test]
fn sphere_normal_points_outward() {
    let sphere = Geometry::Sphere { center: v3(0.0, 0.0, 0.0), radius: fx(1.0) };
    let n = sphere.normal_at_point(v3(0.0, 0.0, -1.0));
    assert_eq!(n.x.raw(), 0);
    assert_eq!(n.y.raw(), 0);
    assert_eq!(n.z.raw(), -1_000_000);
}

#[test]
fn plane_patch_hit_inside_bounds() {
    let plane = Geometry::Plane {
        center: v3(0.0, -1.5, 0.0),
        normal: v3(0.0, 1.0, 0.0),
        size: fx(5.0),
    };
    let ray = Ray { origin: v3(1.0, 0.0, 1.0), direction: v3(0.0, -1.0, 0.0) };
    let (t, point) = plane.intersect(&ray).expect("the ray hits the patch");
    assert_eq!(t.raw(), 1_500_000);
    assert_eq!(point.x.raw(), 1_000_000);
    assert_eq!(point.y.raw(), -1_500_000);
    assert_eq!(point.z.raw(), 1_000_000);
}

#[test]
fn plane_patch_miss_outside_bounds() {
    let plane = Geometry::Plane {
        center: v3(0.0, -1.5, 0.0),
        normal: v3(0.0, 1.0, 0.0),
        size: fx(5.0),
    };
    // the hit point (10, -1.5, 0) is far outside the 5-unit square
    let ray = Ray { origin: v3(10.0, 0.0, 0.0), direction: v3(0.0, -1.0, 0.0) };
    assert!(plane.intersect(&ray).is_none());
}

#[test]
fn plane_parallel_ray_misses() {
    let plane = Geometry::Plane {
        center: v3(0.0, -1.5, 0.0),
        normal: v3(0.0, 1.0, 0.0),
        size: fx(5.0),
    };
    let ray = Ray { origin: v3(0.0, 0.0, 0.0), direction: v3(1.0, 0.0, 0.0) };
    assert!(plane.intersect(&ray).is_none());
}

#[test]
fn geometry_position_set_and_get() {
    let mut sphere = Geometry::Sphere { center: v3(1.0, 2.0, 3.0), radius: fx(1.0) };
    let p = sphere.position();
    assert_eq!(p.x.raw(), 1_000_000);
    sphere.set_position(v3(-4.0, 0.0, 0.5));
    let q = sphere.position();
    assert_eq!(q.x.raw(), -4_000_000);
    assert_eq!(q.y.raw(), 0);
    assert_eq!(q.z.raw(), 500_000);
}

#[test]
fn directional_light_points_against_its_direction() {
    let l = Light::Direction { intensity: (fx(0.4), fx(0.4), fx(0.4)), direction: v3(0.0, -1.0, 0.0) };
    let to_light = l.point_to_light(v3(7.0, 0.0, 0.0));
    assert_eq!(to_light.x.raw(), 0);
    assert_eq!(to_light.y.raw(), 1_000_000);
    assert_eq!(to_light.z.raw(), 0);
}

#[test]
fn point_light_points_from_point_to_position() {
    let l = Light::Point { intensity: (fx(0.4), fx(0.4), fx(0.4)), position: v3(0.0, 2.0, 0.0) };
    let to_light = l.point_to_light(v3(1.0, 0.0, 0.0));
    assert_eq!(to_light.x.raw(), -1_000_000);
    assert_eq!(to_light.y.raw(), 2_000_000);
    assert_eq!(to_light.z.raw(), 0);
}
