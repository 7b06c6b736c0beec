//! The nearest-hit query and the iterative path integrator, with the
//! randomized direction sampler that drives the diffuse bounces.

use vstd::prelude::*;

use rand::rngs::StdRng;

use crate::fixed::{fmul, lemma_tdiv_exact, SCALE};
use crate::geometry::{hit_in_range, primitive_material, spec_primitive_intersect, wf_primitive,
    wf_ray, HitInfo, Primitive, Ray, DIR_BOUND, WORLD_BOUND};
use crate::materials::{emissionless, wf_material, Material, EMISSION_MAX};
use crate::rng::next_u32;
use crate::vec3::{bounded3, dot3, lemma_dot3_bound, lemma_smul_bound, smul, v3, vadd, vnormalize,
    vscale, vsub, whitev, zerov, Vec3};

verus! {

/// Every primitive of the scene is well formed.
pub open spec fn wf_scene(prims: Seq<Primitive>) -> bool {
    forall|i: int| 0 <= i < prims.len() ==> wf_primitive(#[trigger] prims[i])
}

/// No primitive of the scene emits light.
pub open spec fn scene_emissionless(prims: Seq<Primitive>) -> bool {
    forall|i: int| 0 <= i < prims.len() ==> emissionless(primitive_material(#[trigger] prims[i]))
}

/// Squared fixed-point distance from the ray origin to the hit point.
pub open spec fn hit_dist_sq(h: HitInfo, ray: Ray) -> int {
    dot3(vsub(h.position, ray.origin), vsub(h.position, ray.origin))
}

/// The nearest hit over a primitive sequence: each primitive is tested in
/// order, and a later hit replaces an earlier one only when its distance is
/// strictly smaller, so the first primitive wins ties.
pub open spec fn spec_shoot(prims: Seq<Primitive>, ray: Ray) -> Option<HitInfo>
    decreases prims.len(),
{
    if prims.len() == 0 {
        None
    } else {
        let prev = spec_shoot(prims.drop_last(), ray);
        let cur = spec_primitive_intersect(prims.last(), ray);
        match prev {
            None => cur,
            Some(ph) => match cur {
                None => prev,
                Some(ch) => if hit_dist_sq(ch, ray) < hit_dist_sq(ph, ray) {
                    cur
                } else {
                    prev
                },
            },
        }
    }
}

/// The nearest-hit query over an empty collection reports no hit.
pub proof fn lemma_shoot_empty(prims: Seq<Primitive>, ray: Ray)
    requires
        prims.len() == 0,
    ensures
        spec_shoot(prims, ray) is None,
{
}

/// Of two primitives both hit by a ray, the nearest-hit query returns the
/// hit at strictly smaller distance, whichever order the scene lists them in.
pub proof fn lemma_nearest_of_two(p1: Primitive, p2: Primitive, ray: Ray, h1: HitInfo, h2: HitInfo)
    requires
        spec_primitive_intersect(p1, ray) == Some(h1),
        spec_primitive_intersect(p2, ray) == Some(h2),
        hit_dist_sq(h1, ray) < hit_dist_sq(h2, ray),
    ensures
        spec_shoot(seq![p1, p2], ray) == Some(h1),
        spec_shoot(seq![p2, p1], ray) == Some(h1),
{
    reveal_with_fuel(spec_shoot, 4);
    let s12 = seq![p1, p2];
    let s21 = seq![p2, p1];
    assert(s12.drop_last() =~= seq![p1]);
    assert(s21.drop_last() =~= seq![p2]);
    assert(seq![p1].drop_last() =~= Seq::<Primitive>::empty());
    assert(seq![p2].drop_last() =~= Seq::<Primitive>::empty());
    assert(seq![p1].last() == p1);
    assert(seq![p2].last() == p2);
    assert(s12.last() == p2);
    assert(s21.last() == p1);
    assert(spec_shoot(seq![p1], ray) == Some(h1));
    assert(spec_shoot(seq![p2], ray) == Some(h2));
}

/// The nearest hit of a well-formed scene carries the material of one of
/// its primitives, which is therefore well formed.
pub proof fn lemma_spec_shoot_material(prims: Seq<Primitive>, ray: Ray)
    requires
        wf_scene(prims),
    ensures
        spec_shoot(prims, ray) matches Some(h) ==> wf_material(h.material),
    decreases prims.len(),
{
    if prims.len() > 0 {
        assert(wf_scene(prims.drop_last())) by {
            assert forall|i: int| 0 <= i < prims.drop_last().len() implies wf_primitive(
                #[trigger] prims.drop_last()[i],
            ) by {
                assert(prims.drop_last()[i] == prims[i]);
            }
        }
        lemma_spec_shoot_material(prims.drop_last(), ray);
        crate::geometry::lemma_intersect_material(prims.last(), ray);
        assert(wf_primitive(prims[prims.len() - 1]));
    }
}

/// The light a well-formed material emits is non-negative and bounded, in
/// every channel.
pub proof fn lemma_emitted_light_range(m: Material)
    requires
        wf_material(m),
    ensures
        0 <= emitted_light(m).x <= EMISSION_MAX,
        0 <= emitted_light(m).y <= EMISSION_MAX,
        0 <= emitted_light(m).z <= EMISSION_MAX,
{
    lemma_smul_unit_range(m.emission_color.x as int, m.emission_strength as int, EMISSION_MAX as int);
    lemma_smul_unit_range(m.emission_color.y as int, m.emission_strength as int, EMISSION_MAX as int);
    lemma_smul_unit_range(m.emission_color.z as int, m.emission_strength as int, EMISSION_MAX as int);
}

/// Scans every primitive and keeps the closest accepted intersection.
#[verifier::rlimit(100)]
pub fn shoot(objects: &Vec<Primitive>, ray: Ray) -> (r: Option<HitInfo>)
    requires
        wf_scene(objects@),
        wf_ray(ray),
    ensures
        r == spec_shoot(objects@, ray),
        objects@.len() == 0 ==> r is None,
        r matches Some(h) ==> hit_in_range(h) && wf_material(h.material),
        r matches Some(h) ==> exists|i: int|
            0 <= i < objects@.len() && spec_primitive_intersect(#[trigger] objects@[i], ray)
                == Some(h) && h.material == primitive_material(objects@[i]),
{
    let mut best: Option<HitInfo> = None;
    let mut best_d: i64 = 0x7fff_ffff_ffff_ffff;
    let mut i: usize = 0;
    while i < objects.len()
        invariant
            wf_scene(objects@),
            wf_ray(ray),
            0 <= i <= objects@.len(),
            best == spec_shoot(objects@.take(i as int), ray),
            best is None ==> best_d == 0x7fff_ffff_ffff_ffff,
            best matches Some(h) ==> hit_in_range(h) && wf_material(h.material) && best_d as int
                == hit_dist_sq(h, ray) && best_d < 0x7fff_ffff_ffff_ffff,
            best matches Some(h) ==> exists|j: int|
                0 <= j < i && spec_primitive_intersect(#[trigger] objects@[j], ray) == Some(h)
                    && h.material == primitive_material(objects@[j]),
        decreases objects@.len() - i,
    {
        let ghost prefix = objects@.take(i as int);
        let cand = objects[i].intersect(ray);
        proof {
            assert(objects@.take(i as int + 1).drop_last() =~= prefix);
            assert(objects@.take(i as int + 1).last() == objects@[i as int]);
        }
        match cand {
            None => {
                proof {
                    assert(spec_shoot(objects@.take(i as int + 1), ray) == best);
                }
            },
            Some(j) => {
                let delta = j.position.sub(ray.origin);
                proof {
                    lemma_dot3_bound(delta, delta, 0x40_0000_0000, 0x40_0000_0000);
                }
                let nd = delta.dot(delta);
                if nd < best_d {
                    best = Some(j);
                    best_d = nd;
                }
            },
        }
        i = i + 1;
    }
    proof {
        assert(objects@.take(objects@.len() as int) =~= objects@);
    }
    best
}

/// Mirror reflection of `incoming` about `normal` (for a unit normal).
pub open spec fn spec_reflect(incoming: Vec3, normal: Vec3) -> Vec3 {
    vsub(incoming, vscale(normal, 2 * dot3(normal, incoming)))
}

/// Reflects a direction about a surface normal.
pub fn reflect(incoming: Vec3, normal: Vec3) -> (r: Vec3)
    requires
        bounded3(incoming, DIR_BOUND as int),
        bounded3(normal, 2 * SCALE as int),
    ensures
        r == spec_reflect(incoming, normal),
        bounded3(r, 0x100_0000),
{
    proof {
        lemma_dot3_bound(normal, incoming, 2 * SCALE as int, DIR_BOUND as int);
        lemma_smul_bound(normal.x as int, 2 * dot3(normal, incoming), 2 * SCALE as int, 0x40_0000);
        lemma_smul_bound(normal.y as int, 2 * dot3(normal, incoming), 2 * SCALE as int, 0x40_0000);
        lemma_smul_bound(normal.z as int, 2 * dot3(normal, incoming), 2 * SCALE as int, 0x40_0000);
    }
    let dp = normal.dot(incoming);
    incoming.sub(normal.scale(2 * dp))
}

/// A centred, approximately normal fixed-point draw: the sum of three
/// uniform draws over two units, shifted to zero mean. The sum has zero mean
/// and unit variance (3 * (2)^2 / 12 = 1 in world units).
pub fn random_normal_dist(rng: &mut StdRng) -> (r: i64)
    ensures
        -3 * SCALE as int <= r as int <= 3 * SCALE as int,
{
    let a = (next_u32(rng) % 131072) as i64;
    let b = (next_u32(rng) % 131072) as i64;
    let c = (next_u32(rng) % 131072) as i64;
    a + b + c - 3 * SCALE
}

/// Draws an approximately uniformly distributed near-unit direction: three
/// centred draws form a candidate vector, which is normalized. The candidate
/// is first scaled by a power of two (exact, direction-preserving), so that
/// every draw of at least unit squared length after scaling is normalized
/// with the divisor far above the truncation grain; an essentially-zero draw
/// falls back to the fixed axis direction, itself exactly unit. The result
/// is always the exact fixed-point normalization of an admitted candidate,
/// or that axis.
pub fn random_direction(rng: &mut StdRng) -> (v: Vec3)
    ensures
        bounded3(v, 2 * SCALE as int),
        v == (Vec3 { x: 0, y: 0, z: SCALE }) || exists|c: Vec3|
            bounded3(c, 0x400_0000) && dot3(c, c) >= SCALE as int && v == #[trigger] vnormalize(c),
{
    let x = random_normal_dist(rng);
    let y = random_normal_dist(rng);
    let z = random_normal_dist(rng);
    let cand = Vec3 { x: 256 * x, y: 256 * y, z: 256 * z };
    let d = cand.dot(cand);
    if d >= SCALE {
        let r = cand.normalize();
        proof {
            assert(bounded3(cand, 0x400_0000) && dot3(cand, cand) >= SCALE as int && r
                == vnormalize(cand));
        }
        r
    } else {
        Vec3 { x: 0, y: 0, z: SCALE }
    }
}

/// Light emitted by a surface: its emission colour scaled by its strength.
pub open spec fn emitted_light(m: Material) -> Vec3 {
    vscale(m.emission_color, m.emission_strength as int)
}

/// A fixed product of unit-interval by bounded scalar stays in range.
proof fn lemma_smul_unit_range(a: int, b: int, bmax: int)
    requires
        0 <= a <= SCALE as int,
        0 <= b <= bmax,
    ensures
        0 <= smul(a, b) <= bmax,
{
    vstd::arithmetic::mul::lemma_mul_nonnegative(a, b);
    vstd::arithmetic::mul::lemma_mul_upper_bound(a, SCALE as int, b, bmax);
    vstd::arithmetic::div_mod::lemma_div_pos_is_pos(a * b, SCALE as int);
    vstd::arithmetic::div_mod::lemma_div_is_ordered(a * b, SCALE as int * bmax, SCALE as int);
    assert(SCALE as int * bmax == bmax * SCALE as int);
    vstd::arithmetic::div_mod::lemma_div_by_multiple(bmax, SCALE as int);
}

/// Scaling by a zero factor gives zero, on either side.
proof fn lemma_smul_zero(a: int)
    ensures
        smul(a, 0) == 0,
        smul(0, a) == 0,
{
    assert(a * 0 == 0) by (nonlinear_arith);
    assert(0 * a == 0) by (nonlinear_arith);
    assert(crate::fixed::tdiv(0, SCALE as int) == 0) by {
        assert(crate::fixed::iabs(0int) == 0);
        assert(0int / 65536 == 0);
    }
}

/// A fixed product of a bounded scalar by a unit-interval scalar stays in
/// range.
proof fn lemma_smul_scaled(a: int, b: int, amax: int)
    requires
        0 <= a <= amax,
        0 <= b <= SCALE as int,
    ensures
        0 <= smul(a, b) <= amax,
{
    vstd::arithmetic::mul::lemma_mul_nonnegative(a, b);
    vstd::arithmetic::mul::lemma_mul_upper_bound(a, amax, b, SCALE as int);
    vstd::arithmetic::div_mod::lemma_div_pos_is_pos(a * b, SCALE as int);
    vstd::arithmetic::div_mod::lemma_div_is_ordered(a * b, amax * SCALE as int, SCALE as int);
    vstd::arithmetic::div_mod::lemma_div_by_multiple(amax, SCALE as int);
}

/// Blending two unit-interval channels with a unit-interval weight stays in
/// the unit interval.
proof fn lemma_blend_unit(d: int, sp: int, w: int)
    requires
        0 <= d <= SCALE as int,
        0 <= sp <= SCALE as int,
        0 <= w <= SCALE as int,
    ensures
        0 <= smul(d, SCALE as int - w) + smul(sp, w) <= SCALE as int,
{
    let s = SCALE as int;
    lemma_smul_unit_range(d, s - w, s);
    lemma_smul_unit_range(sp, w, s);
    vstd::arithmetic::mul::lemma_mul_nonnegative(d, s - w);
    vstd::arithmetic::mul::lemma_mul_nonnegative(sp, w);
    assert(d * (s - w) <= s * (s - w)) by (nonlinear_arith)
        requires
            0 <= d <= s,
            0 <= s - w,
    ;
    assert(sp * w <= s * w) by (nonlinear_arith)
        requires
            0 <= sp <= s,
            0 <= w,
    ;
    assert(s * (s - w) + s * w == s * s) by (nonlinear_arith);
    assert(smul(d, s - w) == (d * (s - w)) / s);
    assert(smul(sp, w) == (sp * w) / s);
    vstd::arithmetic::div_mod::lemma_div_is_ordered(d * (s - w) + sp * w, s * s, s);
    vstd::arithmetic::div_mod::lemma_div_by_multiple(s, s);
    assert((d * (s - w)) / s + (sp * w) / s <= (d * (s - w) + sp * w) / s) by {
        vstd::arithmetic::div_mod::lemma_fundamental_div_mod(d * (s - w), s);
        vstd::arithmetic::div_mod::lemma_fundamental_div_mod(sp * w, s);
        vstd::arithmetic::div_mod::lemma_remainder_lower(d * (s - w), s);
        vstd::arithmetic::div_mod::lemma_remainder_lower(sp * w, s);
        let q1 = (d * (s - w)) / s;
        let q2 = (sp * w) / s;
        assert(d * (s - w) + sp * w >= (q1 + q2) * s) by (nonlinear_arith)
            requires
                d * (s - w) >= q1 * s,
                sp * w >= q2 * s,
        ;
        vstd::arithmetic::div_mod::lemma_div_multiples_vanish(q1 + q2, s);
        vstd::arithmetic::div_mod::lemma_div_is_ordered((q1 + q2) * s, d * (s - w) + sp * w, s);
        assert((q1 + q2) * s == s * (q1 + q2)) by (nonlinear_arith);
    }
}

/// The blend weight of one surface interaction: smoothness when the
/// Bernoulli draw `rf` selects the specular branch, zero otherwise.
pub open spec fn bounce_weight(mat: Material, rf: int) -> int {
    if mat.specular_chance > rf {
        smul(mat.smoothness as int, SCALE as int)
    } else {
        smul(mat.smoothness as int, 0)
    }
}

/// The outgoing direction of one surface interaction: the randomized diffuse
/// direction and the mirror direction, blended by the weight and normalized.
/// Each normalization pre-scales its vector by 256 (exact and
/// direction-preserving) and falls back to the surface normal when even the
/// scaled vector is below unit length.
pub open spec fn spec_bounce_dir(
    mat: Material,
    normal: Vec3,
    in_dir: Vec3,
    rand_dir: Vec3,
    rf: int,
) -> Vec3 {
    let seed = v3(
        256 * (normal.x + rand_dir.x),
        256 * (normal.y + rand_dir.y),
        256 * (normal.z + rand_dir.z),
    );
    let diffuse = if dot3(seed, seed) >= SCALE as int {
        vnormalize(seed)
    } else {
        normal
    };
    let refl = spec_reflect(in_dir, normal);
    let w = bounce_weight(mat, rf);
    let mix0 = vadd(vscale(diffuse, SCALE as int - w), vscale(refl, w));
    let mixv = v3(256 * mix0.x, 256 * mix0.y, 256 * mix0.z);
    if dot3(mixv, mixv) >= SCALE as int {
        vnormalize(mixv)
    } else {
        normal
    }
}

/// The reflectance colour of one surface interaction: the diffuse and
/// specular colours blended by the same weight as the direction (the
/// coupling of roughness and reflectance in one scalar is deliberate).
pub open spec fn spec_bounce_color(mat: Material, rf: int) -> Vec3 {
    let w = bounce_weight(mat, rf);
    vadd(vscale(mat.diffuse_color, SCALE as int - w), vscale(mat.specular_color, w))
}

/// One surface interaction: from the hit material, the surface normal, the
/// incoming direction, the drawn direction and the Bernoulli draw, computes
/// the outgoing direction and the blended reflectance colour.
pub fn bounce_step(mat: Material, normal: Vec3, in_dir: Vec3, rand_dir: Vec3, rf: i64) -> (r: (
    Vec3,
    Vec3,
))
    requires
        wf_material(mat),
        bounded3(normal, 2 * SCALE as int),
        bounded3(in_dir, DIR_BOUND as int),
        bounded3(rand_dir, 2 * SCALE as int),
    ensures
        r.0 == spec_bounce_dir(mat, normal, in_dir, rand_dir, rf as int),
        r.1 == spec_bounce_color(mat, rf as int),
        bounded3(r.0, 2 * SCALE as int),
        0 <= r.1.x <= SCALE && 0 <= r.1.y <= SCALE && 0 <= r.1.z <= SCALE,
{
    let seed0 = normal.add(rand_dir);
    let seed = Vec3 { x: 256 * seed0.x, y: 256 * seed0.y, z: 256 * seed0.z };
    let sd = seed.dot(seed);
    let diffuse_dir = if sd >= SCALE {
        seed.normalize()
    } else {
        normal
    };
    let reflect_dir = reflect(in_dir, normal);
    let is_specular: i64 = if mat.specular_chance > rf {
        SCALE
    } else {
        0
    };
    proof {
        lemma_smul_unit_range(mat.smoothness as int, is_specular as int, SCALE as int);
    }
    let w = fmul(mat.smoothness, is_specular);
    proof {
        lemma_smul_bound(diffuse_dir.x as int, SCALE as int - w as int, 2 * SCALE as int, SCALE as int);
        lemma_smul_bound(diffuse_dir.y as int, SCALE as int - w as int, 2 * SCALE as int, SCALE as int);
        lemma_smul_bound(diffuse_dir.z as int, SCALE as int - w as int, 2 * SCALE as int, SCALE as int);
        lemma_smul_bound(reflect_dir.x as int, w as int, 0x100_0000, SCALE as int);
        lemma_smul_bound(reflect_dir.y as int, w as int, 0x100_0000, SCALE as int);
        lemma_smul_bound(reflect_dir.z as int, w as int, 0x100_0000, SCALE as int);
    }
    let mix0 = diffuse_dir.scale(SCALE - w).add(reflect_dir.scale(w));
    let mixv = Vec3 { x: 256 * mix0.x, y: 256 * mix0.y, z: 256 * mix0.z };
    let dd = mixv.dot(mixv);
    let new_dir = if dd >= SCALE {
        mixv.normalize()
    } else {
        normal
    };
    proof {
        lemma_blend_unit(mat.diffuse_color.x as int, mat.specular_color.x as int, w as int);
        lemma_blend_unit(mat.diffuse_color.y as int, mat.specular_color.y as int, w as int);
        lemma_blend_unit(mat.diffuse_color.z as int, mat.specular_color.z as int, w as int);
    }
    let blended = mat.diffuse_color.scale(SCALE - w).add(mat.specular_color.scale(w));
    (new_dir, blended)
}

/// Iterates one camera ray through up to `bounces` surface interactions,
/// accumulating emitted light weighted by the path throughput.
///
/// Whatever the generator draws: zero bounces give zero radiance; a scene
/// without emissive materials gives zero radiance; a primary ray that misses
/// gives zero radiance; and with a single bounce, a primary ray that hits a
/// surface returns exactly that surface's emitted light.
#[verifier::rlimit(100)]
pub fn trace(bounces: u8, objects: &Vec<Primitive>, start: Ray, rng: &mut StdRng) -> (r: Vec3)
    requires
        wf_scene(objects@),
        wf_ray(start),
    ensures
        0 <= r.x && 0 <= r.y && 0 <= r.z,
        r.x <= 255 * EMISSION_MAX as int && r.y <= 255 * EMISSION_MAX as int && r.z <= 255
            * EMISSION_MAX as int,
        bounces == 0 ==> r == zerov(),
        spec_shoot(objects@, start) is None ==> r == zerov(),
        scene_emissionless(objects@) ==> r == zerov(),
        bounces == 1 ==> (spec_shoot(objects@, start) matches Some(h) ==> r == emitted_light(
            h.material,
        )),
        bounces >= 1 ==> (spec_shoot(objects@, start) matches Some(h) ==> r.x >= emitted_light(
            h.material,
        ).x && r.y >= emitted_light(h.material).y && r.z >= emitted_light(h.material).z),
{
    let mut ray = start;
    let mut ray_color = Vec3 { x: SCALE, y: SCALE, z: SCALE };
    let mut incoming = Vec3 { x: 0, y: 0, z: 0 };
    let mut done = false;
    let mut k: u8 = 0;
    while k < bounces && !done
        invariant
            wf_scene(objects@),
            wf_ray(ray),
            0 <= k <= bounces,
            0 <= ray_color.x <= SCALE && 0 <= ray_color.y <= SCALE && 0 <= ray_color.z <= SCALE,
            0 <= incoming.x <= k as int * EMISSION_MAX as int,
            0 <= incoming.y <= k as int * EMISSION_MAX as int,
            0 <= incoming.z <= k as int * EMISSION_MAX as int,
            k == 0 ==> ray == start && incoming == zerov() && ray_color == whitev() && !done,
            scene_emissionless(objects@) ==> incoming == zerov(),
            k >= 1 && spec_shoot(objects@, start) is None ==> incoming == zerov() && done,
            bounces == 1 && k >= 1 ==> (spec_shoot(objects@, start) matches Some(h) ==> incoming
                == emitted_light(h.material)),
            k >= 1 ==> (spec_shoot(objects@, start) matches Some(h) ==> incoming.x
                >= emitted_light(h.material).x && incoming.y >= emitted_light(h.material).y
                && incoming.z >= emitted_light(h.material).z),
        decreases bounces - k,
    {
        let hit_opt = shoot(objects, ray);
        match hit_opt {
            None => {
                done = true;
            },
            Some(hit) => {
                let mat = hit.material;
                proof {
                    if scene_emissionless(objects@) {
                        let i = choose|i: int|
                            0 <= i < objects@.len() && spec_primitive_intersect(
                                #[trigger] objects@[i],
                                ray,
                            ) == Some(hit) && hit.material == primitive_material(objects@[i]);
                        assert(emissionless(primitive_material(objects@[i])));
                        assert(mat.emission_strength == 0);
                    }
                    lemma_smul_unit_range(mat.emission_color.x as int, mat.emission_strength as int, EMISSION_MAX as int);
                    lemma_smul_unit_range(mat.emission_color.y as int, mat.emission_strength as int, EMISSION_MAX as int);
                    lemma_smul_unit_range(mat.emission_color.z as int, mat.emission_strength as int, EMISSION_MAX as int);
                }
                let emitted = mat.emission_color.scale(mat.emission_strength);
                proof {
                    lemma_smul_scaled(emitted.x as int, ray_color.x as int, EMISSION_MAX as int);
                    lemma_smul_scaled(emitted.y as int, ray_color.y as int, EMISSION_MAX as int);
                    lemma_smul_scaled(emitted.z as int, ray_color.z as int, EMISSION_MAX as int);
                    if k == 0 {
                        lemma_tdiv_exact(emitted.x as int, SCALE as int);
                        lemma_tdiv_exact(emitted.y as int, SCALE as int);
                        lemma_tdiv_exact(emitted.z as int, SCALE as int);
                    }
                }
                let weighted = emitted.mul(ray_color);
                proof {
                    if scene_emissionless(objects@) {
                        assert(mat.emission_strength == 0);
                        lemma_smul_zero(mat.emission_color.x as int);
                        lemma_smul_zero(mat.emission_color.y as int);
                        lemma_smul_zero(mat.emission_color.z as int);
                        assert(emitted.x == 0 && emitted.y == 0 && emitted.z == 0);
                        lemma_smul_zero(ray_color.x as int);
                        lemma_smul_zero(ray_color.y as int);
                        lemma_smul_zero(ray_color.z as int);
                        assert(weighted.x == 0 && weighted.y == 0 && weighted.z == 0);
                    }
                    if k == 0 {
                        assert(ray_color.x == 65536 && ray_color.y == 65536 && ray_color.z == 65536);
                        assert(weighted.x == emitted.x && weighted.y == emitted.y && weighted.z
                            == emitted.z);
                        assert(emitted == emitted_light(mat));
                    }
                }
                incoming = incoming.add(weighted);
                proof {
                    if k == 0 && !scene_emissionless(objects@) {
                        assert(incoming.x == emitted.x && incoming.y == emitted.y && incoming.z
                            == emitted.z);
                        assert(incoming == emitted_light(mat));
                    }
                }
                // sample the bounce direction and blend the reflectance
                let rand_dir = random_direction(rng);
                let rf = (next_u32(rng) % 65536) as i64;
                let step = bounce_step(mat, hit.normal, ray.dir, rand_dir, rf);
                let new_dir = step.0;
                let blended = step.1;
                proof {
                    lemma_smul_unit_range(blended.x as int, ray_color.x as int, SCALE as int);
                    lemma_smul_unit_range(blended.y as int, ray_color.y as int, SCALE as int);
                    lemma_smul_unit_range(blended.z as int, ray_color.z as int, SCALE as int);
                }
                ray_color = blended.mul(ray_color);
                // continue from the hit point while it is representable
                let p = hit.position;
                if p.x >= -WORLD_BOUND && p.x <= WORLD_BOUND && p.y >= -WORLD_BOUND && p.y
                    <= WORLD_BOUND && p.z >= -WORLD_BOUND && p.z <= WORLD_BOUND {
                    ray = Ray { origin: p, dir: new_dir };
                } else {
                    done = true;
                }
            },
        }
        k = k + 1;
    }
    incoming
}

} // verus!
