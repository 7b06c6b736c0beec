use image_generator::fixed::SCALE;
use image_generator::geometry::{Primitive, Ray, Sphere};
use image_generator::materials::{material, white_light, white_solid};
use image_generator::scene::demo_scene;
use image_generator::tracer::{bounce_step, random_direction, random_normal_dist, reflect, trace};
use image_generator::vec3::Vec3;
use rand::rngs::StdRng;
use rand::SeedableRng;

fn v(x: i64, y: i64, z: i64) -> Vec3 {
    Vec3 { x, y, z }
}

fn forward_ray() -> Ray {
    Ray {
        origin: v(0, 0, 0),
        dir: v(0, 0, SCALE),
    }
}

fn emissive_sphere_scene() -> Vec<Primitive> {
    vec![Primitive::Sphere(Sphere {
        radius: SCALE,
        position: v(0, 0, 5 * SCALE),
        material: white_light(),
    })]
}

#[test]
fn test_reflect_head_on() {
    // Reflecting +z about the -z normal turns the direction around.
    let r = reflect(v(0, 0, SCALE), v(0, 0, -SCALE));
    assert_eq!(r, v(0, 0, -SCALE));
}

#[test]
fn test_bounce_step_full_specular_is_mirror() {
    // smoothness 1 and a taken specular branch: the outgoing direction is
    // the mirror reflection and the colour is the specular colour exactly
    let m = material(
        v(SCALE, 0, 0),
        v(0, SCALE, 0),
        v(0, 0, 0),
        0,
        SCALE,
        SCALE,
    );
    let (dir, color) = bounce_step(m, v(0, 0, -SCALE), v(0, 0, SCALE), v(SCALE, 0, 0), 0);
    assert_eq!(dir, v(0, 0, -SCALE));
    assert_eq!(color, v(0, SCALE, 0));
}

#[test]
fn test_bounce_step_full_diffuse_keeps_diffuse_colour() {
    // smoothness 0: the colour is the diffuse colour and the direction is
    // the normalized sum of normal and drawn direction
    let m = material(
        v(SCALE, SCALE / 2, 0),
        v(0, SCALE, 0),
        v(0, 0, 0),
        0,
        0,
        SCALE,
    );
    let (dir, color) = bounce_step(m, v(0, 0, SCALE), v(0, 0, SCALE), v(0, 0, SCALE), 0);
    assert_eq!(dir, v(0, 0, SCALE));
    assert_eq!(color, v(SCALE, SCALE / 2, 0));
}

#[test]
fn test_trace_zero_bounces_is_black() {
    let mut rng = StdRng::seed_from_u64(1);
    let c = trace(0, &emissive_sphere_scene(), forward_ray(), &mut rng);
    assert_eq!(c, v(0, 0, 0));
}

#[test]
fn test_trace_emissionless_scene_is_black() {
    let mut rng = StdRng::seed_from_u64(2);
    let objects = vec![
        Primitive::Sphere(Sphere {
            radius: SCALE,
            position: v(0, 0, 5 * SCALE),
            material: white_solid(),
        }),
        Primitive::Sphere(Sphere {
            radius: 2 * SCALE,
            position: v(0, 0, 9 * SCALE),
            material: white_solid(),
        }),
    ];
    for _ in 0..16 {
        assert_eq!(trace(10, &objects, forward_ray(), &mut rng), v(0, 0, 0));
    }
}

#[test]
fn test_trace_miss_is_black() {
    let mut rng = StdRng::seed_from_u64(3);
    let ray = Ray {
        origin: v(0, 0, 0),
        dir: v(0, 0, -SCALE),
    };
    assert_eq!(trace(10, &emissive_sphere_scene(), ray, &mut rng), v(0, 0, 0));
}

#[test]
fn test_trace_first_bounce_emission() {
    // One bounce on an emissive surface returns emission colour times
    // strength, whatever the diffuse and specular parameters are.
    let mut rng = StdRng::seed_from_u64(4);
    let c = trace(1, &emissive_sphere_scene(), forward_ray(), &mut rng);
    assert_eq!(c, v(SCALE, SCALE, SCALE));

    let odd = material(
        v(SCALE, 0, SCALE),
        v(0, SCALE, 0),
        v(SCALE / 2, SCALE / 4, SCALE),
        SCALE / 2,
        SCALE / 3,
        SCALE / 5,
    );
    // same emission, different reflectance parameters: same first bounce
    let objects = vec![Primitive::Sphere(Sphere {
        radius: SCALE,
        position: v(0, 0, 5 * SCALE),
        material: material(v(0, 0, 0), v(0, 0, 0), odd.emission_color, odd.emission_strength, 0, 0),
    })];
    let objects_odd = vec![Primitive::Sphere(Sphere {
        radius: SCALE,
        position: v(0, 0, 5 * SCALE),
        material: odd,
    })];
    let a = trace(1, &objects, forward_ray(), &mut rng);
    let b = trace(1, &objects_odd, forward_ray(), &mut rng);
    assert_eq!(a, b);
    assert_eq!(a, v(SCALE / 4, SCALE / 8, SCALE / 2));
}

#[test]
fn test_trace_demo_scene_is_finite_and_nonnegative() {
    let mut rng = StdRng::seed_from_u64(5);
    let objects = demo_scene();
    let ray = Ray {
        origin: v(0, 0, -10 * SCALE),
        dir: v(0, 0, SCALE),
    };
    for _ in 0..8 {
        let c = trace(10, &objects, ray, &mut rng);
        assert!(c.x >= 0 && c.y >= 0 && c.z >= 0);
    }
}

#[test]
fn test_random_normal_dist_in_range() {
    let mut rng = StdRng::seed_from_u64(6);
    for _ in 0..1000 {
        let r = random_normal_dist(&mut rng);
        assert!(-3 * SCALE <= r && r <= 3 * SCALE);
    }
}

#[test]
fn test_random_direction_unit_length() {
    let mut rng = StdRng::seed_from_u64(7);
    for _ in 0..500 {
        let d = random_direction(&mut rng);
        let m = d.magnitude();
        // unit length within fixed-point truncation tolerance
        assert!((m - SCALE).abs() <= 1024, "magnitude {m}");
    }
}

#[test]
fn test_random_direction_mean_near_zero() {
    let mut rng = StdRng::seed_from_u64(8);
    let n: i64 = 4000;
    let mut sx: i64 = 0;
    let mut sy: i64 = 0;
    let mut sz: i64 = 0;
    for _ in 0..n {
        let d = random_direction(&mut rng);
        sx += d.x;
        sy += d.y;
        sz += d.z;
    }
    // the sample mean approaches the zero vector
    assert!((sx / n).abs() < SCALE / 10);
    assert!((sy / n).abs() < SCALE / 10);
    assert!((sz / n).abs() < SCALE / 10);
}
