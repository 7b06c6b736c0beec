use image_generator::fixed::SCALE;
use image_generator::geometry::{HitInfo, Primitive, Ray, Sphere, Triangle};
use image_generator::materials::{green_solid, red_solid, white_solid};
use image_generator::tracer::shoot;
use image_generator::vec3::Vec3;

fn v(x: i64, y: i64, z: i64) -> Vec3 {
    Vec3 { x, y, z }
}

fn forward_ray() -> Ray {
    Ray {
        origin: v(0, 0, 0),
        dir: v(0, 0, SCALE),
    }
}

#[test]
fn test_sphere_tangential_hit_boundary_inclusive() {
    // Centre one unit above the ray line: perpendicular distance equals the
    // radius exactly, and the tangential hit is still reported.
    let s = Sphere {
        radius: SCALE,
        position: v(0, SCALE, 5 * SCALE),
        material: white_solid(),
    };
    let hit = s.intersect(forward_ray()).expect("tangential hit expected");
    assert_eq!(hit.position, v(0, 0, 5 * SCALE));
    assert_eq!(hit.normal, v(0, -SCALE, 0));
}

#[test]
fn test_sphere_behind_origin_misses() {
    let s = Sphere {
        radius: SCALE,
        position: v(0, 0, -5 * SCALE),
        material: white_solid(),
    };
    assert!(s.intersect(forward_ray()).is_none());
}

#[test]
fn test_sphere_beyond_radius_misses() {
    // Perpendicular distance 2 > radius 1.
    let s = Sphere {
        radius: SCALE,
        position: v(0, 2 * SCALE, 5 * SCALE),
        material: white_solid(),
    };
    assert!(s.intersect(forward_ray()).is_none());
}

fn front_triangle() -> Triangle {
    // Face normal points toward -z, anti-parallel to the +z ray.
    Triangle {
        a: v(-2 * SCALE, -SCALE, 5 * SCALE),
        b: v(0, 2 * SCALE, 5 * SCALE),
        c: v(2 * SCALE, -SCALE, 5 * SCALE),
        material: white_solid(),
    }
}

#[test]
fn test_triangle_interior_hit() {
    let hit = front_triangle()
        .intersect(forward_ray())
        .expect("interior hit expected");
    assert_eq!(hit.position, v(0, 0, 5 * SCALE));
    assert_eq!(hit.normal, v(0, 0, -SCALE));
}

#[test]
fn test_triangle_lateral_offset_misses() {
    // Through the triangle's plane but outside its footprint.
    let ray = Ray {
        origin: v(3 * SCALE, 0, 0),
        dir: v(0, 0, SCALE),
    };
    assert!(front_triangle().intersect(ray).is_none());
}

#[test]
fn test_triangle_parallel_ray_misses() {
    let ray = Ray {
        origin: v(0, 0, 0),
        dir: v(SCALE, 0, 0),
    };
    assert!(front_triangle().intersect(ray).is_none());
}

#[test]
fn test_shoot_empty_scene_returns_no_hit() {
    let objects: Vec<Primitive> = Vec::new();
    assert!(shoot(&objects, forward_ray()).is_none());
}

#[test]
fn test_shoot_overlapping_spheres_nearest_wins() {
    let near = Primitive::Sphere(Sphere {
        radius: SCALE,
        position: v(0, 0, 5 * SCALE),
        material: red_solid(),
    });
    let far = Primitive::Sphere(Sphere {
        radius: SCALE,
        position: v(0, 0, 8 * SCALE),
        material: green_solid(),
    });
    let expect_near = |h: HitInfo| {
        assert_eq!(h.position, v(0, 0, 4 * SCALE));
        assert_eq!(h.material, red_solid());
    };
    expect_near(shoot(&vec![near, far], forward_ray()).expect("hit expected"));
    // order in the scene must not matter for a strictly nearer hit
    expect_near(shoot(&vec![far, near], forward_ray()).expect("hit expected"));
}

#[test]
fn test_shoot_tie_keeps_first_primitive() {
    let first = Primitive::Sphere(Sphere {
        radius: SCALE,
        position: v(0, 0, 5 * SCALE),
        material: red_solid(),
    });
    let second = Primitive::Sphere(Sphere {
        radius: SCALE,
        position: v(0, 0, 5 * SCALE),
        material: green_solid(),
    });
    let hit = shoot(&vec![first, second], forward_ray()).expect("hit expected");
    assert_eq!(hit.material, red_solid());
}
