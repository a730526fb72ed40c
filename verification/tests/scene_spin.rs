use raytracer::{Fx, Geometry, Light, Material, Object, Scene, Vec3};

fn fx(v: f64) -> Fx {
    Fx::from_raw((v * 1_000_000.0).round() as i64)
}

fn v3(x: f64, y: f64, z: f64) -> Vec3 {
    Vec3::new(fx(x), fx(y), fx(z))
}

fn scene_with_sphere_at(x: f64, y: f64, z: f64) -> Scene {
    Scene {
        objects: vec![Object {
            name: "sphere".to_string(),
            material: Material {
                colour: (fx(1.0), fx(0.5), fx(0.0)),
                specular: 5,
                metallic: fx(0.0),
            },
            geometry: Geometry::Sphere { center: v3(x, y, z), radius: fx(1.0) },
        }],
        lights: vec![Light::Point {
            intensity: (fx(0.4), fx(0.4), fx(0.4)),
            position: v3(0.0, 2.0, 0.0),
        }],
        background_colour: (fx(0.5), fx(0.8), fx(1.0)),
        ambient_light: (fx(0.2), fx(0.2), fx(0.2)),
        reflection_limit: 4,
        do_objects_spin: true,
    }
}

#[test]
fn quarter_spin_carries_x_to_negative_z() {
    let mut scene = scene_with_sphere_at(2.0, 0.0, 0.0);
    scene.spin_objects(fx(1.0), fx(0.0));
    let p = scene.objects[0].geometry.position();
    assert_eq!(p.x.raw(), 0);
    assert_eq!(p.y.raw(), 0);
    assert_eq!(p.z.raw(), -2_000_000);
}

#[test]
fn spin_keeps_distance_from_origin() {
    let mut scene = scene_with_sphere_at(3.0, 0.0, 4.0);
    let before = scene.objects[0].geometry.position().length().raw();
    let theta: f64 = 0.3;
    scene.spin_objects(fx(theta.sin()), fx(theta.cos()));
    let after = scene.objects[0].geometry.position().length().raw();
    assert!((before - after).abs() <= 10, "the rescale keeps the orbit radius");
}

#[test]
fn spin_touches_nothing_but_positions() {
    let mut scene = scene_with_sphere_at(2.0, 1.0, 0.0);
    scene.spin_objects(fx(0.5), fx(0.8660254));
    assert_eq!(scene.objects.len(), 1);
    assert_eq!(scene.objects[0].name, "sphere");
    assert_eq!(scene.objects[0].material.specular, 5);
    match &scene.objects[0].geometry {
        Geometry::Sphere { center: _, radius } => assert_eq!(radius.raw(), 1_000_000),
        _ => panic!("the sphere is still a sphere"),
    }
    assert_eq!(scene.reflection_limit, 4);
    assert!(scene.do_objects_spin);
}
