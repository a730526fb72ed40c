use raytracer::{Fx, Geometry, Light, Material, Object, Orientation, RayTracer, Scene, Vec3};

fn fx(v: f64) -> Fx {
    Fx::from_raw((v * 1_000_000.0).round() as i64)
}

fn v3(x: f64, y: f64, z: f64) -> Vec3 {
    Vec3::new(fx(x), fx(y), fx(z))
}

fn orientation(pitch: f64, yaw: f64, roll: f64) -> Orientation {
    Orientation {
        sin_x: fx(pitch.sin()),
        cos_x: fx(pitch.cos()),
        sin_y: fx(yaw.sin()),
        cos_y: fx(yaw.cos()),
        sin_z: fx(roll.sin()),
        cos_z: fx(roll.cos()),
    }
}

/// The scene of the end-to-end scenario: one diffuse sphere at the
/// origin, one directional light shining toward the scene from the
/// `(1,1,1)` octant, and the camera at `(5,5,5)` looking at the
/// origin with a 70 degree field of view.
fn scenario_tracer(width: u32, height: u32) -> RayTracer {
    let to_scene = -1.0 / 3f64.sqrt();
    RayTracer {
        camera: v3(5.0, 5.0, 5.0),
        rotation: orientation((1.0 / 2f64.sqrt()).atan(), -std::f64::consts::FRAC_PI_4, 0.0),
        tan_half_fov: fx((35.0 * std::f64::consts::PI / 180.0).tan()),
        width,
        height,
        scene: Scene {
            objects: vec![Object {
                name: "sphere".to_string(),
                material: Material {
                    colour: (fx(1.0), fx(1.0), fx(1.0)),
                    specular: 500,
                    metallic: fx(0.0),
                },
                geometry: Geometry::Sphere { center: v3(0.0, 0.0, 0.0), radius: fx(1.0) },
            }],
            lights: vec![Light::Direction {
                intensity: (fx(1.0), fx(1.0), fx(1.0)),
                direction: v3(to_scene, to_scene, to_scene),
            }],
            background_colour: (fx(0.5), fx(0.8), fx(1.0)),
            ambient_light: (fx(0.2), fx(0.2), fx(0.2)),
            reflection_limit: 4,
            do_objects_spin: false,
        },
    }
}

struct Frame {
    top_left: Vec3,
    width_world: Fx,
    height_world: Fx,
    right: Vec3,
    up: Vec3,
}

fn frame(rt: &RayTracer) -> Frame {
    let aspect = Fx::from_int(rt.height as i64).div(Fx::from_int(rt.width as i64));
    let plane = rt.get_image_plane(aspect);
    Frame {
        top_left: plane.left.add(plane.top).sub(plane.center),
        width_world: plane.right.sub(plane.left).length(),
        height_world: plane.top.sub(plane.bottom).length(),
        right: rt.right(),
        up: rt.up(),
    }
}

#[test]
fn scenario_center_pixel_is_brighter_than_ambient() {
    let rt = scenario_tracer(400, 300);
    let f = frame(&rt);
    let c = rt.render_pixel(200, 150, f.top_left, f.width_world, f.height_world, f.right, f.up);
    assert!(c.0.raw() > 200_000, "the sphere at image centre must out-shine the ambient term");
    assert!(c.1.raw() > 200_000);
    assert!(c.2.raw() > 200_000);
}

#[test]
fn scenario_corner_pixels_are_background() {
    let rt = scenario_tracer(400, 300);
    let f = frame(&rt);
    for (x, y) in [(0u32, 0u32), (399, 0), (0, 299), (399, 299)] {
        let c = rt.render_pixel(x, y, f.top_left, f.width_world, f.height_world, f.right, f.up);
        assert_eq!(c.0.raw(), 500_000);
        assert_eq!(c.1.raw(), 800_000);
        assert_eq!(c.2.raw(), 1_000_000);
    }
}

#[test]
fn full_frame_buffer_layout() {
    // a small frame: camera on the Z axis looking at a lone sphere
    let rt = RayTracer {
        camera: v3(0.0, 0.0, 5.0),
        rotation: orientation(0.0, 0.0, 0.0),
        tan_half_fov: fx((35.0 * std::f64::consts::PI / 180.0).tan()),
        width: 4,
        height: 3,
        scene: Scene {
            objects: vec![Object {
                name: "sphere".to_string(),
                material: Material {
                    colour: (fx(1.0), fx(1.0), fx(1.0)),
                    specular: 500,
                    metallic: fx(0.0),
                },
                geometry: Geometry::Sphere { center: v3(0.0, 0.0, 0.0), radius: fx(1.0) },
            }],
            lights: vec![],
            background_colour: (fx(0.5), fx(0.8), fx(1.0)),
            ambient_light: (fx(0.2), fx(0.2), fx(0.2)),
            reflection_limit: 4,
            do_objects_spin: false,
        },
    };
    let buf = rt.rs_render();
    assert_eq!(buf.len(), 4 * 3 * 4);
    // the corner pixel misses the sphere: background, truncated to bytes
    assert_eq!(&buf[0..4], &[127, 204, 255, 255]);
    // every pixel's alpha byte is 255
    for i in 0..12 {
        assert_eq!(buf[4 * i + 3], 255);
    }
    // the pixel one column right of centre-left hits the sphere and
    // shows the ambient light alone (the scene has no lights)
    let i = (1 * 4 + 1) * 4;
    assert_eq!(&buf[i..i + 4], &[51, 51, 51, 255]);
}
