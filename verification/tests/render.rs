use image_generator::fixed::SCALE;
use image_generator::geometry::{Primitive, Ray, Sphere};
use image_generator::materials::white_light;
use image_generator::render::{primary_ray, render, to_byte};
use image_generator::vec3::Vec3;
use rand::rngs::StdRng;
use rand::SeedableRng;

fn v(x: i64, y: i64, z: i64) -> Vec3 {
    Vec3 { x, y, z }
}

#[test]
fn test_to_byte_clamps_and_scales() {
    assert_eq!(to_byte(-5), 0);
    assert_eq!(to_byte(0), 0);
    assert_eq!(to_byte(SCALE), 255);
    assert_eq!(to_byte(10 * SCALE), 255);
    assert_eq!(to_byte(SCALE / 2), 127);
    // 0.25 * 255 = 63.75, truncated
    assert_eq!(to_byte(SCALE / 4), 63);
}

#[test]
fn test_primary_ray_center_pixel_points_forward() {
    let camera = v(0, 0, -10 * SCALE);
    let r = primary_ray(8, 8, 16, 16, SCALE, camera);
    assert_eq!(r.origin, camera);
    // screen coordinates (0, 0): straight along the camera axis
    assert_eq!(r.dir, v(0, 0, SCALE));
}

#[test]
fn test_primary_ray_covers_screen_corners() {
    let camera = v(0, 0, -10 * SCALE);
    let r = primary_ray(0, 0, 16, 16, SCALE, camera);
    // top-left pixel: u = -1, v = 1; the direction leans left and up
    assert!(r.dir.x < 0 && r.dir.y > 0 && r.dir.z > 0);
    let m = r.dir.magnitude();
    assert!((m - SCALE).abs() <= 1024);
}

#[test]
fn test_render_emissive_disc_scenario() {
    // one emissive unit sphere on the camera's forward axis
    let objects = vec![Primitive::Sphere(Sphere {
        radius: SCALE,
        position: v(0, 0, 0),
        material: white_light(),
    })];
    let camera = v(0, 0, -5 * SCALE);
    let mut rng = StdRng::seed_from_u64(11);
    let w: u32 = 16;
    let h: u32 = 16;
    let buf = render(w, h, SCALE, 1, 1, camera, &objects, &mut rng);
    assert_eq!(buf.len(), (3 * w * h) as usize);
    let pixel = |i: u32, j: u32| {
        let base = ((j * w + i) * 3) as usize;
        (buf[base], buf[base + 1], buf[base + 2])
    };
    // a bright disc of constant colour around the centre
    assert_eq!(pixel(8, 8), (255, 255, 255));
    assert_eq!(pixel(7, 8), (255, 255, 255));
    assert_eq!(pixel(8, 7), (255, 255, 255));
    // background pixels stay black
    assert_eq!(pixel(0, 0), (0, 0, 0));
    assert_eq!(pixel(15, 15), (0, 0, 0));
    assert_eq!(pixel(0, 15), (0, 0, 0));
}

#[test]
fn test_render_empty_scene_is_black() {
    let objects: Vec<Primitive> = Vec::new();
    let mut rng = StdRng::seed_from_u64(12);
    let buf = render(8, 8, SCALE, 3, 2, v(0, 0, 0), &objects, &mut rng);
    assert_eq!(buf.len(), 8 * 8 * 3);
    assert!(buf.iter().all(|&b| b == 0));
}

#[test]
fn test_forward_ray_scenario_matches_trace() {
    // the centre primary ray is the plain forward ray
    let camera = v(0, 0, -10 * SCALE);
    let r = primary_ray(4, 4, 8, 8, SCALE, camera);
    assert_eq!(
        r,
        Ray {
            origin: camera,
            dir: v(0, 0, SCALE)
        }
    );
}
