//! The frame sampler: builds one pinhole-camera ray per pixel, averages a
//! number of traced samples, and deposits clamped 8-bit channels into a
//! row-major RGB buffer.
//!
//! At bounce budget one every sample is deterministic — the emitted light of
//! the pixel's primary hit — so the buffer contents are pinned exactly; for
//! any positive budget they are at least that bright, and an emissionless
//! scene renders all black.

use vstd::prelude::*;

use rand::rngs::StdRng;

use crate::fixed::{tdiv, SCALE};
use crate::geometry::{wf_ray, Primitive, Ray, DIR_BOUND, WORLD_BOUND};
use crate::materials::EMISSION_MAX;
use crate::tracer::{emitted_light, lemma_emitted_light_range, lemma_spec_shoot_material,
    scene_emissionless, spec_shoot, trace, wf_scene};
use crate::vec3::{bounded3, smul, v3, vnormalize, zerov, Vec3};

verus! {

/// Largest supported image side length.
pub const MAX_SIDE: u32 = 4096;

/// Smallest accepted focal length; anything shorter degenerates below the
/// fixed-point resolution.
pub const MIN_FOCAL: i64 = 256;

/// Horizontal screen coordinate of pixel column `i`, in `[-1, 1)` fixed
/// point.
pub open spec fn pixel_u(i: int, width: int) -> int {
    tdiv(i * 2 * SCALE as int, width) - SCALE as int
}

/// Vertical screen coordinate of pixel row `j`, in `(-1, 1]` fixed point
/// (rows run downward, the camera's vertical axis upward).
pub open spec fn pixel_v(j: int, height: int) -> int {
    SCALE as int - tdiv(j * 2 * SCALE as int, height)
}

/// The primary ray of pixel `(i, j)`: from the camera origin through the
/// normalized screen point at the focal plane.
pub open spec fn spec_primary_ray(
    i: int,
    j: int,
    width: int,
    height: int,
    focal: int,
    camera: Vec3,
) -> Ray {
    Ray {
        origin: camera,
        dir: vnormalize(v3(pixel_u(i, width), pixel_v(j, height), focal)),
    }
}

/// Builds the pinhole-camera ray for one pixel.
pub fn primary_ray(i: u32, j: u32, width: u32, height: u32, focal: i64, camera: Vec3) -> (r: Ray)
    requires
        0 < width <= MAX_SIDE,
        0 < height <= MAX_SIDE,
        i < width,
        j < height,
        MIN_FOCAL <= focal <= DIR_BOUND,
        bounded3(camera, WORLD_BOUND as int),
    ensures
        r == spec_primary_ray(i as int, j as int, width as int, height as int, focal as int, camera),
        wf_ray(r),
{
    let un: u64 = (i as u64) * 2 * 65536;
    let uq: u64 = un / (width as u64);
    let u: i64 = (uq as i64) - SCALE;
    proof {
        vstd::arithmetic::div_mod::lemma_div_pos_is_pos(i as int * 2 * SCALE as int, width as int);
        vstd::arithmetic::div_mod::lemma_div_is_ordered(
            i as int * 2 * SCALE as int,
            width as int * 2 * SCALE as int,
            width as int,
        );
        assert(i as int * 2 * SCALE as int <= width as int * 2 * SCALE as int);
        vstd::arithmetic::div_mod::lemma_div_by_multiple(2 * SCALE as int, width as int);
        assert(width as int * 2 * SCALE as int == 2 * SCALE as int * width as int);
        assert(uq as int == tdiv(i as int * 2 * SCALE as int, width as int));
    }
    let vn: u64 = (j as u64) * 2 * 65536;
    let vq: u64 = vn / (height as u64);
    let v: i64 = SCALE - (vq as i64);
    proof {
        vstd::arithmetic::div_mod::lemma_div_pos_is_pos(j as int * 2 * SCALE as int, height as int);
        vstd::arithmetic::div_mod::lemma_div_is_ordered(
            j as int * 2 * SCALE as int,
            height as int * 2 * SCALE as int,
            height as int,
        );
        vstd::arithmetic::div_mod::lemma_div_by_multiple(2 * SCALE as int, height as int);
        assert(height as int * 2 * SCALE as int == 2 * SCALE as int * height as int);
        assert(vq as int == tdiv(j as int * 2 * SCALE as int, height as int));
    }
    let cand = Vec3 { x: u, y: v, z: focal };
    proof {
        assert(focal as int * focal as int >= 65536) by (nonlinear_arith)
            requires
                focal as int >= 256,
        ;
        vstd::arithmetic::div_mod::lemma_div_is_ordered(
            65536,
            focal as int * focal as int,
            SCALE as int,
        );
        assert(smul(focal as int, focal as int) >= 1);
        crate::vec3::lemma_dot3_self_nonneg_parts_pub(cand);
    }
    let dir = cand.normalize();
    Ray { origin: camera, dir }
}

/// Clamps a fixed-point channel to the unit interval and narrows it to an
/// 8-bit value.
pub open spec fn spec_to_byte(c: int) -> int {
    if c < 0 {
        0
    } else if c >= SCALE as int {
        255
    } else {
        (c * 255) / SCALE as int
    }
}

/// The byte narrowing never leaves the byte range.
proof fn lemma_to_byte_range(c: int)
    ensures
        0 <= spec_to_byte(c) <= 255,
{
    if 0 <= c && c < SCALE as int {
        vstd::arithmetic::mul::lemma_mul_nonnegative(c, 255);
        vstd::arithmetic::div_mod::lemma_div_pos_is_pos(c * 255, SCALE as int);
        vstd::arithmetic::mul::lemma_mul_inequality(c, SCALE as int, 255);
        vstd::arithmetic::div_mod::lemma_div_is_ordered(c * 255, SCALE as int * 255, SCALE as int);
        assert(SCALE as int * 255 == 255 * SCALE as int);
        vstd::arithmetic::div_mod::lemma_div_by_multiple(255, SCALE as int);
    }
}

/// The byte narrowing keeps order.
proof fn lemma_to_byte_monotone(c1: int, c2: int)
    requires
        c1 <= c2,
    ensures
        spec_to_byte(c1) <= spec_to_byte(c2),
{
    lemma_to_byte_range(c1);
    lemma_to_byte_range(c2);
    if 0 <= c1 && c2 < SCALE as int {
        vstd::arithmetic::mul::lemma_mul_inequality(c1, c2, 255);
        vstd::arithmetic::div_mod::lemma_div_is_ordered(c1 * 255, c2 * 255, SCALE as int);
    }
}

/// Narrows one radiance channel to a byte, clamping out-of-range values.
pub fn to_byte(c: i64) -> (r: u8)
    ensures
        r as int == spec_to_byte(c as int),
{
    if c < 0 {
        0
    } else if c >= SCALE {
        255
    } else {
        let n: u64 = (c as u64) * 255;
        let q: u64 = n / 65536;
        proof {
            vstd::arithmetic::div_mod::lemma_div_pos_is_pos(c as int * 255, SCALE as int);
            vstd::arithmetic::div_mod::lemma_div_is_ordered(
                c as int * 255,
                SCALE as int * 255,
                SCALE as int,
            );
            vstd::arithmetic::div_mod::lemma_div_by_multiple(255, SCALE as int);
            assert(SCALE as int * 255 == 255 * SCALE as int);
        }
        q as u8
    }
}

/// Radiance a pixel's primary ray gathers in a single bounce: zero on a
/// miss, else the emitted light of the nearest surface.
pub open spec fn pixel_radiance(
    objects: Seq<Primitive>,
    i: int,
    j: int,
    width: int,
    height: int,
    focal: int,
    camera: Vec3,
) -> Vec3 {
    match spec_shoot(objects, spec_primary_ray(i, j, width, height, focal, camera)) {
        None => zerov(),
        Some(h) => emitted_light(h.material),
    }
}

/// The three bytes of pixel `(i, j)` in a row-major buffer agree with the
/// pixel's single-bounce radiance: exactly at bounce budget one, and as a
/// lower bound for any positive budget.
pub open spec fn pixel_bytes_ok(
    buf: Seq<u8>,
    objects: Seq<Primitive>,
    bounces: int,
    i: int,
    j: int,
    width: int,
    height: int,
    focal: int,
    camera: Vec3,
) -> bool {
    let pr = pixel_radiance(objects, i, j, width, height, focal, camera);
    let base = 3 * (j * width + i);
    &&& (bounces == 1 ==> buf[base] == spec_to_byte(pr.x as int) && buf[base + 1] == spec_to_byte(
        pr.y as int,
    ) && buf[base + 2] == spec_to_byte(pr.z as int))
    &&& (bounces >= 1 ==> buf[base] >= spec_to_byte(pr.x as int) && buf[base + 1] >= spec_to_byte(
        pr.y as int,
    ) && buf[base + 2] >= spec_to_byte(pr.z as int))
}

/// Renders one pixel: the integrator runs `samples` times and the mean
/// radiance is narrowed to three bytes.
#[verifier::rlimit(100)]
fn render_pixel(
    i: u32,
    j: u32,
    width: u32,
    height: u32,
    focal: i64,
    bounces: u8,
    samples: u16,
    camera: Vec3,
    objects: &Vec<Primitive>,
    rng: &mut StdRng,
) -> (r: (u8, u8, u8))
    requires
        0 < width <= MAX_SIDE,
        0 < height <= MAX_SIDE,
        i < width,
        j < height,
        MIN_FOCAL <= focal <= DIR_BOUND,
        samples >= 1,
        bounded3(camera, WORLD_BOUND as int),
        wf_scene(objects@),
    ensures
        bounces == 1 ==> r.0 == spec_to_byte(
            pixel_radiance(
                objects@,
                i as int,
                j as int,
                width as int,
                height as int,
                focal as int,
                camera,
            ).x as int,
        ) && r.1 == spec_to_byte(
            pixel_radiance(
                objects@,
                i as int,
                j as int,
                width as int,
                height as int,
                focal as int,
                camera,
            ).y as int,
        ) && r.2 == spec_to_byte(
            pixel_radiance(
                objects@,
                i as int,
                j as int,
                width as int,
                height as int,
                focal as int,
                camera,
            ).z as int,
        ),
        bounces >= 1 ==> r.0 >= spec_to_byte(
            pixel_radiance(
                objects@,
                i as int,
                j as int,
                width as int,
                height as int,
                focal as int,
                camera,
            ).x as int,
        ) && r.1 >= spec_to_byte(
            pixel_radiance(
                objects@,
                i as int,
                j as int,
                width as int,
                height as int,
                focal as int,
                camera,
            ).y as int,
        ) && r.2 >= spec_to_byte(
            pixel_radiance(
                objects@,
                i as int,
                j as int,
                width as int,
                height as int,
                focal as int,
                camera,
            ).z as int,
        ),
        scene_emissionless(objects@) ==> r.0 == 0 && r.1 == 0 && r.2 == 0,
{
    let view_ray = primary_ray(i, j, width, height, focal, camera);
    let ghost pr = pixel_radiance(
        objects@,
        i as int,
        j as int,
        width as int,
        height as int,
        focal as int,
        camera,
    );
    proof {
        lemma_spec_shoot_material(objects@, view_ray);
        if spec_shoot(objects@, view_ray) is Some {
            lemma_emitted_light_range(spec_shoot(objects@, view_ray)->Some_0.material);
        }
        assert(0 <= pr.x <= EMISSION_MAX && 0 <= pr.y <= EMISSION_MAX && 0 <= pr.z
            <= EMISSION_MAX);
    }
    let mut sum = Vec3 { x: 0, y: 0, z: 0 };
    let mut s: u16 = 0;
    while s < samples
        invariant
            wf_scene(objects@),
            wf_ray(view_ray),
            0 <= s <= samples,
            view_ray == spec_primary_ray(
                i as int,
                j as int,
                width as int,
                height as int,
                focal as int,
                camera,
            ),
            pr == pixel_radiance(
                objects@,
                i as int,
                j as int,
                width as int,
                height as int,
                focal as int,
                camera,
            ),
            0 <= pr.x <= EMISSION_MAX && 0 <= pr.y <= EMISSION_MAX && 0 <= pr.z <= EMISSION_MAX,
            scene_emissionless(objects@) ==> sum == zerov(),
            0 <= sum.x <= s as int * (255 * EMISSION_MAX as int),
            0 <= sum.y <= s as int * (255 * EMISSION_MAX as int),
            0 <= sum.z <= s as int * (255 * EMISSION_MAX as int),
            bounces == 1 ==> sum.x == s as int * pr.x && sum.y == s as int * pr.y && sum.z
                == s as int * pr.z,
            bounces >= 1 ==> sum.x >= s as int * pr.x && sum.y >= s as int * pr.y && sum.z
                >= s as int * pr.z,
        decreases samples - s,
    {
        let c = trace(bounces, objects, view_ray, rng);
        proof {
            assert(s as int * (255 * EMISSION_MAX as int) <= 65534 * (255 * EMISSION_MAX as int))
                by (nonlinear_arith)
                requires
                    s as int <= 65534,
            ;
            if bounces >= 1 {
                if spec_shoot(objects@, view_ray) is None {
                    assert(c == zerov());
                    assert(pr == zerov());
                }
                assert(c.x >= pr.x && c.y >= pr.y && c.z >= pr.z);
                if bounces == 1 {
                    assert(c.x == pr.x && c.y == pr.y && c.z == pr.z);
                }
                assert((s as int + 1) * pr.x == s as int * pr.x + pr.x) by (nonlinear_arith);
                assert((s as int + 1) * pr.y == s as int * pr.y + pr.y) by (nonlinear_arith);
                assert((s as int + 1) * pr.z == s as int * pr.z + pr.z) by (nonlinear_arith);
            }
        }
        sum = sum.add(c);
        proof {
            assert((s as int + 1) * (255 * EMISSION_MAX as int) == s as int * (255
                * EMISSION_MAX as int) + 255 * EMISSION_MAX as int) by (nonlinear_arith);
        }
        s = s + 1;
    }
    let ax: i64 = ((sum.x as u64) / (samples as u64)) as i64;
    let ay: i64 = ((sum.y as u64) / (samples as u64)) as i64;
    let az: i64 = ((sum.z as u64) / (samples as u64)) as i64;
    proof {
        if scene_emissionless(objects@) {
            assert(0int / samples as int == 0);
            assert(ax == 0 && ay == 0 && az == 0);
            assert(spec_to_byte(0) == 0);
        }
        if bounces >= 1 {
            assert(samples as int * pr.x == pr.x * samples as int) by (nonlinear_arith);
            assert(samples as int * pr.y == pr.y * samples as int) by (nonlinear_arith);
            assert(samples as int * pr.z == pr.z * samples as int) by (nonlinear_arith);
            vstd::arithmetic::div_mod::lemma_div_by_multiple(pr.x as int, samples as int);
            vstd::arithmetic::div_mod::lemma_div_by_multiple(pr.y as int, samples as int);
            vstd::arithmetic::div_mod::lemma_div_by_multiple(pr.z as int, samples as int);
            vstd::arithmetic::div_mod::lemma_div_is_ordered(
                samples as int * pr.x,
                sum.x as int,
                samples as int,
            );
            vstd::arithmetic::div_mod::lemma_div_is_ordered(
                samples as int * pr.y,
                sum.y as int,
                samples as int,
            );
            vstd::arithmetic::div_mod::lemma_div_is_ordered(
                samples as int * pr.z,
                sum.z as int,
                samples as int,
            );
            assert(ax as int >= pr.x && ay as int >= pr.y && az as int >= pr.z);
            if bounces == 1 {
                assert(ax as int == pr.x && ay as int == pr.y && az as int == pr.z);
            }
            lemma_to_byte_monotone(pr.x as int, ax as int);
            lemma_to_byte_monotone(pr.y as int, ay as int);
            lemma_to_byte_monotone(pr.z as int, az as int);
        }
    }
    (to_byte(ax), to_byte(ay), to_byte(az))
}

/// Renders the scene into a row-major RGB byte buffer. Every pixel's bytes
/// agree with its single-bounce radiance (`pixel_bytes_ok`): the mean is
/// exact at bounce budget one, a lower bound for any positive budget, and an
/// emissionless scene renders all black.
#[verifier::rlimit(100)]
pub fn render(
    width: u32,
    height: u32,
    focal: i64,
    bounces: u8,
    samples: u16,
    camera: Vec3,
    objects: &Vec<Primitive>,
    rng: &mut StdRng,
) -> (buf: Vec<u8>)
    requires
        0 < width <= MAX_SIDE,
        0 < height <= MAX_SIDE,
        MIN_FOCAL <= focal <= DIR_BOUND,
        samples >= 1,
        bounded3(camera, WORLD_BOUND as int),
        wf_scene(objects@),
    ensures
        buf@.len() == 3 * (width as int * height as int),
        forall|i: int, j: int| 0 <= i < width && 0 <= j < height ==> pixel_bytes_ok(
            buf@,
            objects@,
            bounces as int,
            i,
            j,
            width as int,
            height as int,
            focal as int,
            camera,
        ),
        scene_emissionless(objects@) ==> forall|k: int| 0 <= k < buf@.len() ==> buf@[k] == 0,
{
    let mut buf: Vec<u8> = Vec::new();
    let mut j: u32 = 0;
    while j < height
        invariant
            0 < width <= MAX_SIDE,
            0 < height <= MAX_SIDE,
            MIN_FOCAL <= focal <= DIR_BOUND,
            samples >= 1,
            bounded3(camera, WORLD_BOUND as int),
            wf_scene(objects@),
            0 <= j <= height,
            buf@.len() == 3 * (j as int * width as int),
            forall|i2: int, j2: int| 0 <= i2 < width && 0 <= j2 < j ==> pixel_bytes_ok(
                buf@,
                objects@,
                bounces as int,
                i2,
                j2,
                width as int,
                height as int,
                focal as int,
                camera,
            ),
            scene_emissionless(objects@) ==> forall|k: int| 0 <= k < buf@.len() ==> buf@[k] == 0,
        decreases height - j,
    {
        let mut i: u32 = 0;
        while i < width
            invariant
                0 < width <= MAX_SIDE,
                0 < height <= MAX_SIDE,
                MIN_FOCAL <= focal <= DIR_BOUND,
                samples >= 1,
                bounded3(camera, WORLD_BOUND as int),
                wf_scene(objects@),
                0 <= j < height,
                0 <= i <= width,
                buf@.len() == 3 * (j as int * width as int) + 3 * i as int,
                forall|i2: int, j2: int| 0 <= i2 < width && 0 <= j2 < j ==> pixel_bytes_ok(
                    buf@,
                    objects@,
                    bounces as int,
                    i2,
                    j2,
                    width as int,
                    height as int,
                    focal as int,
                    camera,
                ),
                forall|i2: int| 0 <= i2 < i ==> pixel_bytes_ok(
                    buf@,
                    objects@,
                    bounces as int,
                    i2,
                    j as int,
                    width as int,
                    height as int,
                    focal as int,
                    camera,
                ),
                scene_emissionless(objects@) ==> forall|k: int|
                    0 <= k < buf@.len() ==> buf@[k] == 0,
            decreases width - i,
        {
            let ghost old_buf = buf@;
            let px = render_pixel(i, j, width, height, focal, bounces, samples, camera, objects, rng);
            buf.push(px.0);
            buf.push(px.1);
            buf.push(px.2);
            proof {
                let w = width as int;
                let base_new = 3 * (j as int * w + i as int);
                assert(base_new == old_buf.len() as int);
                assert(buf@[base_new] == px.0 && buf@[base_new + 1] == px.1 && buf@[base_new + 2]
                    == px.2);
                assert(pixel_bytes_ok(
                    buf@,
                    objects@,
                    bounces as int,
                    i as int,
                    j as int,
                    w,
                    height as int,
                    focal as int,
                    camera,
                ));
                assert forall|i2: int, j2: int| 0 <= i2 < width && 0 <= j2 < j implies
                    pixel_bytes_ok(
                    buf@,
                    objects@,
                    bounces as int,
                    i2,
                    j2,
                    w,
                    height as int,
                    focal as int,
                    camera,
                ) by {
                    assert(j2 * w <= (j as int - 1) * w) by (nonlinear_arith)
                        requires
                            j2 <= j as int - 1,
                            w >= 0,
                    ;
                    assert((j as int - 1) * w + w == j as int * w) by (nonlinear_arith);
                    let base = 3 * (j2 * w + i2);
                    assert(base + 2 < old_buf.len());
                    assert(buf@[base] == old_buf[base] && buf@[base + 1] == old_buf[base + 1]
                        && buf@[base + 2] == old_buf[base + 2]);
                    assert(pixel_bytes_ok(
                        old_buf,
                        objects@,
                        bounces as int,
                        i2,
                        j2,
                        w,
                        height as int,
                        focal as int,
                        camera,
                    ));
                }
                assert forall|i2: int| 0 <= i2 < i as int implies pixel_bytes_ok(
                    buf@,
                    objects@,
                    bounces as int,
                    i2,
                    j as int,
                    w,
                    height as int,
                    focal as int,
                    camera,
                ) by {
                    let base = 3 * (j as int * w + i2);
                    assert(base + 2 < old_buf.len());
                    assert(buf@[base] == old_buf[base] && buf@[base + 1] == old_buf[base + 1]
                        && buf@[base + 2] == old_buf[base + 2]);
                    assert(pixel_bytes_ok(
                        old_buf,
                        objects@,
                        bounces as int,
                        i2,
                        j as int,
                        w,
                        height as int,
                        focal as int,
                        camera,
                    ));
                }
            }
            i = i + 1;
        }
        proof {
            assert(3 * (j as int * width as int) + 3 * width as int == 3 * ((j as int + 1)
                * width as int)) by (nonlinear_arith);
            assert forall|i2: int, j2: int| 0 <= i2 < width && 0 <= j2 < j as int + 1 implies
                pixel_bytes_ok(
                buf@,
                objects@,
                bounces as int,
                i2,
                j2,
                width as int,
                height as int,
                focal as int,
                camera,
            ) by {
                if j2 == j as int {
                    assert(pixel_bytes_ok(
                        buf@,
                        objects@,
                        bounces as int,
                        i2,
                        j as int,
                        width as int,
                        height as int,
                        focal as int,
                        camera,
                    ));
                }
            }
        }
        j = j + 1;
    }
    proof {
        assert(3 * (height as int * width as int) == 3 * (width as int * height as int))
            by (nonlinear_arith);
    }
    buf
}

} // verus!
