use raytracer::{Fx, Geometry, Light, Material, Object, Orientation, Ray, RayTracer, Scene, Vec3};

fn fx(v: f64) -> Fx {
    Fx::from_raw((v * 1_000_000.0).round() as i64)
}

fn v3(x: f64, y: f64, z: f64) -> Vec3 {
    Vec3::new(fx(x), fx(y), fx(z))
}

fn identity_orientation() -> Orientation {
    Orientation {
        sin_x: fx(0.0),
        cos_x: fx(1.0),
        sin_y: fx(0.0),
        cos_y: fx(1.0),
        sin_z: fx(0.0),
        cos_z: fx(1.0),
    }
}

fn sphere(x: f64, y: f64, z: f64, radius: f64, metallic: f64) -> Object {
    Object {
        name: "sphere".to_string(),
        material: Material {
            colour: (fx(1.0), fx(1.0), fx(1.0)),
            specular: 500,
            metallic: fx(metallic),
        },
        geometry: Geometry::Sphere { center: v3(x, y, z), radius: fx(radius) },
    }
}

fn tracer(objects: Vec<Object>, lights: Vec<Light>, reflection_limit: u32) -> RayTracer {
    RayTracer {
        camera: v3(0.0, 0.0, 5.0),
        rotation: identity_orientation(),
        tan_half_fov: fx(0.7002),
        width: 8,
        height: 6,
        scene: Scene {
            objects,
            lights,
            background_colour: (fx(0.5), fx(0.8), fx(1.0)),
            ambient_light: (fx(0.2), fx(0.2), fx(0.2)),
            reflection_limit,
            do_objects_spin: false,
        },
    }
}

#[test]
fn occluder_between_light_and_point_leaves_ambient_only() {
    // a point light straight above, an opaque sphere halfway up:
    // the shadow ray hits it, so the light contributes nothing
    let light = Light::Point { intensity: (fx(0.9), fx(0.9), fx(0.9)), position: v3(0.0, 5.0, 0.0) };
    let occluder = sphere(0.0, 2.5, 0.0, 0.5, 0.0);
    let rt = tracer(vec![occluder], vec![light], 4);
    let shaded = rt.calculate_light(
        v3(0.0, 0.0, 0.0),
        v3(0.0, 1.0, 0.0),
        v3(0.0, 0.0, 5.0),
        &Material { colour: (fx(1.0), fx(1.0), fx(1.0)), specular: 500, metallic: fx(0.0) },
    );
    assert_eq!(shaded.0.raw(), 200_000);
    assert_eq!(shaded.1.raw(), 200_000);
    assert_eq!(shaded.2.raw(), 200_000);
}

#[test]
fn unoccluded_light_adds_to_ambient() {
    // the same configuration without the occluder is strictly brighter
    let light = Light::Point { intensity: (fx(0.9), fx(0.9), fx(0.9)), position: v3(0.0, 5.0, 0.0) };
    let rt = tracer(vec![], vec![light], 4);
    let shaded = rt.calculate_light(
        v3(0.0, 0.0, 0.0),
        v3(0.0, 1.0, 0.0),
        v3(0.0, 0.0, 5.0),
        &Material { colour: (fx(1.0), fx(1.0), fx(1.0)), specular: 500, metallic: fx(0.0) },
    );
    assert!(shaded.0.raw() > 200_000);
}

#[test]
fn reflection_limit_zero_ignores_metallic() {
    // with no reflection budget, a mirror and a diffuse sphere render alike
    let light = Light::Point { intensity: (fx(0.9), fx(0.9), fx(0.9)), position: v3(0.0, 5.0, 5.0) };
    let mirror = tracer(
        vec![sphere(0.0, 0.0, 0.0, 1.0, 1.0)],
        vec![Light::Point { intensity: (fx(0.9), fx(0.9), fx(0.9)), position: v3(0.0, 5.0, 5.0) }],
        0,
    );
    let diffuse = tracer(vec![sphere(0.0, 0.0, 0.0, 1.0, 0.0)], vec![light], 0);
    let ray = Ray { origin: v3(0.0, 0.0, 5.0), direction: v3(0.0, 0.0, -1.0) };
    let a = mirror.trace_ray(&ray, 0);
    let b = diffuse.trace_ray(&ray, 0);
    assert_eq!(a.0.raw(), b.0.raw());
    assert_eq!(a.1.raw(), b.1.raw());
    assert_eq!(a.2.raw(), b.2.raw());
}

#[test]
fn fully_metallic_surface_returns_reflected_colour() {
    // the reflection ray from the sphere's front pole goes straight
    // back past the camera and hits nothing, so a fully metallic
    // sphere shows the background colour exactly
    let rt = tracer(vec![sphere(0.0, 0.0, 0.0, 1.0, 1.0)], vec![], 4);
    let ray = Ray { origin: v3(0.0, 0.0, 5.0), direction: v3(0.0, 0.0, -1.0) };
    let c = rt.trace_ray(&ray, 0);
    assert_eq!(c.0.raw(), 500_000);
    assert_eq!(c.1.raw(), 800_000);
    assert_eq!(c.2.raw(), 1_000_000);
}

#[test]
fn non_metallic_surface_returns_local_colour() {
    // metallic zero renders identically at any reflection budget:
    // the output is the local shading colour exactly
    let light = Light::Point { intensity: (fx(0.9), fx(0.9), fx(0.9)), position: v3(0.0, 5.0, 5.0) };
    let with_budget = tracer(
        vec![sphere(0.0, 0.0, 0.0, 1.0, 0.0)],
        vec![Light::Point { intensity: (fx(0.9), fx(0.9), fx(0.9)), position: v3(0.0, 5.0, 5.0) }],
        4,
    );
    let without_budget = tracer(vec![sphere(0.0, 0.0, 0.0, 1.0, 0.0)], vec![light], 0);
    let ray = Ray { origin: v3(0.0, 0.0, 5.0), direction: v3(0.0, 0.0, -1.0) };
    let a = with_budget.trace_ray(&ray, 0);
    let b = without_budget.trace_ray(&ray, 0);
    assert_eq!(a.0.raw(), b.0.raw());
    assert_eq!(a.1.raw(), b.1.raw());
    assert_eq!(a.2.raw(), b.2.raw());
    // and it is brighter than the ambient term alone: the light shines
    assert!(a.0.raw() > 200_000);
}

#[test]
fn ray_that_hits_nothing_returns_background() {
    let rt = tracer(vec![sphere(0.0, 0.0, 0.0, 1.0, 0.0)], vec![], 4);
    let ray = Ray { origin: v3(0.0, 0.0, 5.0), direction: v3(0.0, 1.0, 0.0) };
    let c = rt.trace_ray(&ray, 0);
    assert_eq!(c.0.raw(), 500_000);
    assert_eq!(c.1.raw(), 800_000);
    assert_eq!(c.2.raw(), 1_000_000);
}
