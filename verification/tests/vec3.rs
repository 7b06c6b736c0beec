use image_generator::fixed::{fdiv, fmul, fsqrt, isqrt, SCALE};
use image_generator::vec3::{new, Vec3};

#[test]
fn test_add() {
    let u = Vec3 {
        x: 65536,
        y: 65536,
        z: 65536,
    };
    let v = Vec3 {
        x: 65536,
        y: 65536,
        z: 65536,
    };
    let w = Vec3 {
        x: 131072,
        y: 131072,
        z: 131072,
    };
    assert_eq!(u.add(v), w)
}

#[test]
fn test_sub_mul_scale() {
    let a = new(3 * SCALE, -2 * SCALE, SCALE);
    let b = new(SCALE, SCALE / 2, -SCALE);
    assert_eq!(a.sub(b), new(2 * SCALE, -2 * SCALE - SCALE / 2, 2 * SCALE));
    // componentwise fixed product: 3*1, -2*0.5, 1*-1
    assert_eq!(a.mul(b), new(3 * SCALE, -SCALE, -SCALE));
    assert_eq!(a.scale(2 * SCALE), new(6 * SCALE, -4 * SCALE, 2 * SCALE));
}

#[test]
fn test_fixed_mul_truncates_toward_zero() {
    // 1.5 * 1.5 = 2.25
    assert_eq!(fmul(98304, 98304), 147456);
    // -0.00001526 * 0.5 rounds toward zero, not down
    assert_eq!(fmul(-1, 32768), 0);
    assert_eq!(fmul(-3 * SCALE, 2 * SCALE), -6 * SCALE);
}

#[test]
fn test_fixed_div() {
    assert_eq!(fdiv(6 * SCALE, 2 * SCALE), 3 * SCALE);
    assert_eq!(fdiv(SCALE, 3 * SCALE), 21845);
    assert_eq!(fdiv(-SCALE, 3 * SCALE), -21845);
}

#[test]
fn test_isqrt_and_fsqrt() {
    assert_eq!(isqrt(0), 0);
    assert_eq!(isqrt(10), 3);
    assert_eq!(isqrt(16), 4);
    assert_eq!(isqrt(u64::MAX as u128), 4294967295);
    // sqrt(4.0) = 2.0 exactly in fixed point
    assert_eq!(fsqrt(4 * SCALE), 2 * SCALE);
    // sqrt(2.0) ~ 1.41421; floor in fixed point
    assert_eq!(fsqrt(2 * SCALE), 92681);
}

#[test]
fn test_dot_cross() {
    let a = new(SCALE, 2 * SCALE, 3 * SCALE);
    let b = new(4 * SCALE, -5 * SCALE, 6 * SCALE);
    // 4 - 10 + 18 = 12
    assert_eq!(a.dot(b), 12 * SCALE);
    // (2*6 - 3*-5, 3*4 - 1*6, 1*-5 - 2*4) = (27, 6, -13)
    assert_eq!(a.cross(b), new(27 * SCALE, 6 * SCALE, -13 * SCALE));
}

#[test]
fn test_normalize_three_four_five() {
    let v = new(3 * SCALE, 4 * SCALE, 0);
    assert_eq!(v.magnitude(), 5 * SCALE);
    let n = v.normalize();
    // 0.6 and 0.8 truncated at 1/65536 resolution
    assert_eq!(n, new(39321, 52428, 0));
}
