//! Geometry primitives and their ray-intersection tests.
//!
//! A sphere is intersected analytically; a triangle by the Moeller-Trumbore
//! barycentric test. Every geometric edge case (ray behind the origin,
//! parallel ray, barycentric coordinate out of range, degenerate distance or
//! an intermediate value outside the representable fixed-point range) is
//! resolved by reporting no intersection. Each executable test is proved
//! equal to its specification-level counterpart.

use vstd::prelude::*;

use crate::fixed::{fdiv_checked, fmul, fsqrt, lemma_sqrt_floor_le, sdiv_checked, sqrt_floor, tdiv,
    SCALE};
use crate::materials::{wf_material, Material};
use crate::vec3::{bounded3, dot3, lemma_dot3_bound, lemma_smul_bound, smul, vadd, vcross,
    vnormalize, vscale, vsub, Vec3};

verus! {

/// Componentwise bound on scene positions and triangle vertices (512 world
/// units in fixed point).
pub const WORLD_BOUND: i64 = 0x200_0000;

/// Componentwise bound on ray directions (four world units in fixed point;
/// directions are expected to be near unit length).
pub const DIR_BOUND: i64 = 0x4_0000;

/// Componentwise bound every reported hit position satisfies.
pub const HIT_BOUND: i64 = 0x20_0000_0000;

/// Smallest positive fixed-point value, used where the test rejects
/// near-parallel rays and intersections at the ray origin.
pub const F_EPSILON: i64 = 1;

/// Largest accepted parametric hit distance; farther intersections are
/// outside the representable world and are treated as misses.
pub const T_MAX: i64 = 0x4_0000_0000;

#[derive(Clone, Copy, Debug, PartialEq, Eq, Structural)]
pub struct Ray {
    pub origin: Vec3,
    pub dir: Vec3,
}

#[derive(Clone, Copy, Debug, PartialEq, Eq, Structural)]
pub struct HitInfo {
    pub position: Vec3,
    pub normal: Vec3,
    pub material: Material,
}

#[derive(Clone, Copy, Debug, PartialEq, Eq, Structural)]
pub struct Sphere {
    pub radius: i64,
    pub position: Vec3,
    pub material: Material,
}

#[derive(Clone, Copy, Debug, PartialEq, Eq, Structural)]
pub struct Triangle {
    pub a: Vec3,
    pub b: Vec3,
    pub c: Vec3,
    pub material: Material,
}

/// A scene primitive: the tagged union over the two supported shapes.
#[derive(Clone, Copy, Debug, PartialEq, Eq, Structural)]
pub enum Primitive {
    Sphere(Sphere),
    Triangle(Triangle),
}

/// A ray whose origin and direction are within the representable world.
pub open spec fn wf_ray(r: Ray) -> bool {
    bounded3(r.origin, WORLD_BOUND as int) && bounded3(r.dir, DIR_BOUND as int)
}

pub open spec fn wf_sphere(s: Sphere) -> bool {
    &&& 0 < s.radius <= WORLD_BOUND
    &&& bounded3(s.position, WORLD_BOUND as int)
    &&& wf_material(s.material)
}

pub open spec fn wf_triangle(t: Triangle) -> bool {
    &&& bounded3(t.a, WORLD_BOUND as int)
    &&& bounded3(t.b, WORLD_BOUND as int)
    &&& bounded3(t.c, WORLD_BOUND as int)
    &&& wf_material(t.material)
}

pub open spec fn wf_primitive(p: Primitive) -> bool {
    match p {
        Primitive::Sphere(s) => wf_sphere(s),
        Primitive::Triangle(t) => wf_triangle(t),
    }
}

/// The material attached to a primitive.
pub open spec fn primitive_material(p: Primitive) -> Material {
    match p {
        Primitive::Sphere(s) => s.material,
        Primitive::Triangle(t) => t.material,
    }
}

/// A reported hit is within the representable world, carries a near-unit
/// normal, and copies the primitive's material.
pub open spec fn hit_in_range(h: HitInfo) -> bool {
    bounded3(h.position, HIT_BOUND as int) && bounded3(h.normal, 2 * SCALE as int)
}

/// The analytic ray-sphere test: project the centre onto the ray, reject a
/// centre behind the origin or a perpendicular distance beyond the radius,
/// then step back half a chord from the projection to the near root.
pub open spec fn spec_sphere_intersect(s: Sphere, ray: Ray) -> Option<HitInfo> {
    let l = vsub(s.position, ray.origin);
    let t_ca = dot3(l, ray.dir);
    let d_sq = dot3(l, l);
    if t_ca < 0 {
        None
    } else {
        let dd = d_sq - smul(t_ca as int, t_ca as int);
        let dcl = if dd < 0 {
            0
        } else {
            dd
        };
        let d = sqrt_floor(dcl * SCALE as int);
        if s.radius - d < 0 {
            None
        } else {
            let rr = smul(s.radius as int, s.radius as int) - smul(d, d);
            let t_hc = sqrt_floor(rr * SCALE as int);
            let t_0 = t_ca - t_hc;
            let p_0 = vadd(ray.origin, vscale(ray.dir, t_0));
            let nv = vsub(p_0, s.position);
            if dot3(nv, nv) < 1 {
                None
            } else {
                Some(HitInfo { position: p_0, normal: vnormalize(nv), material: s.material })
            }
        }
    }
}

/// Determinant of the Moeller-Trumbore system for `t` and `ray`.
pub open spec fn tri_det(t: Triangle, ray: Ray) -> int {
    dot3(vsub(t.b, t.a), vcross(ray.dir, vsub(t.c, t.a)))
}

/// First barycentric coordinate (valid when the determinant is nonzero).
pub open spec fn tri_u(t: Triangle, ray: Ray) -> int {
    tdiv(
        dot3(vsub(ray.origin, t.a), vcross(ray.dir, vsub(t.c, t.a))) * SCALE as int,
        tri_det(t, ray),
    )
}

/// Second barycentric coordinate.
pub open spec fn tri_v(t: Triangle, ray: Ray) -> int {
    tdiv(
        dot3(ray.dir, vcross(vsub(ray.origin, t.a), vsub(t.b, t.a))) * SCALE as int,
        tri_det(t, ray),
    )
}

/// Parametric distance along the ray to the triangle plane.
pub open spec fn tri_t(t: Triangle, ray: Ray) -> int {
    tdiv(
        dot3(vsub(t.c, t.a), vcross(vsub(ray.origin, t.a), vsub(t.b, t.a))) * SCALE as int,
        tri_det(t, ray),
    )
}

/// The Moeller-Trumbore ray-triangle test over fixed-point scalars.
pub open spec fn spec_triangle_intersect(t: Triangle, ray: Ray) -> Option<HitInfo> {
    let e1 = vsub(t.b, t.a);
    let e2 = vsub(t.c, t.a);
    let rce2 = vcross(ray.dir, e2);
    let det = dot3(e1, rce2);
    if -F_EPSILON < det && det < F_EPSILON {
        None
    } else {
        let s = vsub(ray.origin, t.a);
        match sdiv_checked(dot3(s, rce2), det) {
            None => None,
            Some(u) => if u < 0 || u > SCALE as int {
                None
            } else {
                let sce1 = vcross(s, e1);
                match sdiv_checked(dot3(ray.dir, sce1), det) {
                    None => None,
                    Some(v) => if v < 0 || u + v > SCALE as int {
                        None
                    } else {
                        match sdiv_checked(dot3(e2, sce1), det) {
                            None => None,
                            Some(tt) => if tt <= F_EPSILON as int || tt > T_MAX as int {
                                None
                            } else {
                                let p_0 = vadd(ray.origin, vscale(ray.dir, tt));
                                let nv = vcross(e1, e2);
                                if dot3(nv, nv) < 1 {
                                    None
                                } else {
                                    Some(
                                        HitInfo {
                                            position: p_0,
                                            normal: vnormalize(nv),
                                            material: t.material,
                                        },
                                    )
                                }
                            },
                        }
                    },
                }
            },
        }
    }
}

/// Intersection of a ray with any primitive.
pub open spec fn spec_primitive_intersect(p: Primitive, ray: Ray) -> Option<HitInfo> {
    match p {
        Primitive::Sphere(s) => spec_sphere_intersect(s, ray),
        Primitive::Triangle(t) => spec_triangle_intersect(t, ray),
    }
}

/// Projection of the sphere centre onto the ray (the distance along the ray
/// to the closest point to the centre).
pub open spec fn sphere_t_ca(s: Sphere, ray: Ray) -> int {
    dot3(vsub(s.position, ray.origin), ray.dir)
}

/// Squared perpendicular distance from the centre to the ray line, clamped
/// below at zero.
pub open spec fn sphere_dcl(s: Sphere, ray: Ray) -> int {
    let l = vsub(s.position, ray.origin);
    let dd = dot3(l, l) - smul(sphere_t_ca(s, ray), sphere_t_ca(s, ray));
    if dd < 0 {
        0
    } else {
        dd
    }
}

/// Perpendicular distance from the centre to the ray line, in fixed point.
pub open spec fn sphere_d(s: Sphere, ray: Ray) -> int {
    sqrt_floor(sphere_dcl(s, ray) * SCALE as int)
}

/// Squared length of the would-be surface normal at a tangential hit, where
/// the hit point is the centre's projection onto the ray.
pub open spec fn sphere_tangent_nd(s: Sphere, ray: Ray) -> int {
    let p_0 = vadd(ray.origin, vscale(ray.dir, sphere_t_ca(s, ray)));
    let nv = vsub(p_0, s.position);
    dot3(nv, nv)
}

/// A ray whose perpendicular distance to the sphere's centre equals the
/// radius exactly still reports a hit: the boundary of the acceptance test
/// is inclusive, and the tangential hit point is the centre's projection
/// onto the ray.
pub proof fn lemma_sphere_tangent_hit(s: Sphere, ray: Ray)
    requires
        sphere_t_ca(s, ray) >= 0,
        sphere_d(s, ray) == s.radius,
        sphere_tangent_nd(s, ray) >= 1,
    ensures
        spec_sphere_intersect(s, ray) is Some,
        spec_sphere_intersect(s, ray)->Some_0.position == vadd(
            ray.origin,
            vscale(ray.dir, sphere_t_ca(s, ray)),
        ),
{
    let l = vsub(s.position, ray.origin);
    let t_ca = sphere_t_ca(s, ray);
    let d = sphere_d(s, ray);
    assert(s.radius - d == 0);
    let rr = smul(s.radius as int, s.radius as int) - smul(d, d);
    assert(rr == 0);
    crate::fixed::lemma_sqrt_floor_unique(0, 0);
    assert(sqrt_floor(rr * SCALE as int) == 0);
    assert(spec_sphere_intersect(s, ray) matches Some(h) && h.position == vadd(
        ray.origin,
        vscale(ray.dir, t_ca),
    ));
}

/// An accepted intersection copies the primitive's material.
pub proof fn lemma_intersect_material(p: Primitive, ray: Ray)
    ensures
        spec_primitive_intersect(p, ray) matches Some(h) ==> h.material == primitive_material(p),
{
}

impl Sphere {
    /// Analytic ray-sphere intersection (near root only).
    pub fn intersect(&self, ray: Ray) -> (r: Option<HitInfo>)
        requires
            wf_sphere(*self),
            wf_ray(ray),
        ensures
            r == spec_sphere_intersect(*self, ray),
            r matches Some(h) ==> hit_in_range(h) && h.material == self.material,
    {
        let l = self.position.sub(ray.origin);
        proof {
            assert(bounded3(l, 0x400_0000));
        }
        let t_ca = l.dot(ray.dir);
        let d_sq = l.dot(l);
        proof {
            lemma_dot3_bound(l, ray.dir, 0x400_0000, 0x4_0000);
            lemma_dot3_bound(l, l, 0x400_0000, 0x400_0000);
        }
        if t_ca < 0 {
            return None;
        }
        proof {
            lemma_smul_bound(t_ca as int, t_ca as int, 0x3000_0000, 0x3000_0000);
        }
        let tt2 = fmul(t_ca, t_ca);
        let dd = d_sq - tt2;
        let dcl: i64 = if dd < 0 {
            0
        } else {
            dd
        };
        proof {
            lemma_sqrt_floor_le(dcl as int * SCALE as int, 0x800_0000);
        }
        let d = fsqrt(dcl);
        if self.radius - d < 0 {
            return None;
        }
        proof {
            lemma_smul_bound(self.radius as int, self.radius as int, 0x200_0000, 0x200_0000);
            lemma_smul_bound(d as int, d as int, 0x800_0000, 0x800_0000);
        }
        let rr2 = fmul(self.radius, self.radius);
        let dd2 = fmul(d, d);
        proof {
            assert(d as int * d as int >= 0) by (nonlinear_arith);
            assert(d as int * d as int <= self.radius as int * self.radius as int)
                by (nonlinear_arith)
                requires
                    0 <= d as int <= self.radius as int,
            ;
            vstd::arithmetic::div_mod::lemma_div_pos_is_pos(d as int * d as int, SCALE as int);
            vstd::arithmetic::div_mod::lemma_div_is_ordered(
                d as int * d as int,
                self.radius as int * self.radius as int,
                SCALE as int,
            );
            assert(dd2 <= rr2);
            lemma_sqrt_floor_le((rr2 - dd2) as int * SCALE as int, 0x200_0000);
        }
        let rr = rr2 - dd2;
        let t_hc = fsqrt(rr);
        let t_0 = t_ca - t_hc;
        proof {
            lemma_smul_bound(ray.dir.x as int, t_0 as int, 0x4_0000, 0x4000_0000);
            lemma_smul_bound(ray.dir.y as int, t_0 as int, 0x4_0000, 0x4000_0000);
            lemma_smul_bound(ray.dir.z as int, t_0 as int, 0x4_0000, 0x4000_0000);
        }
        let p_0 = ray.origin.add(ray.dir.scale(t_0));
        let nv = p_0.sub(self.position);
        let nd = nv.dot(nv);
        if nd < 1 {
            return None;
        }
        let normal = nv.normalize();
        Some(HitInfo { position: p_0, normal, material: self.material })
    }
}

impl Triangle {
    /// Moeller-Trumbore ray-triangle intersection.
    pub fn intersect(&self, ray: Ray) -> (r: Option<HitInfo>)
        requires
            wf_triangle(*self),
            wf_ray(ray),
        ensures
            r == spec_triangle_intersect(*self, ray),
            r matches Some(h) ==> hit_in_range(h) && h.material == self.material,
            r matches Some(h) ==> 0 <= tri_u(*self, ray) && 0 <= tri_v(*self, ray) && tri_u(
                *self,
                ray,
            ) + tri_v(*self, ray) <= SCALE as int && tri_t(*self, ray) > F_EPSILON as int,
    {
        let e1 = self.b.sub(self.a);
        let e2 = self.c.sub(self.a);
        proof {
            assert(bounded3(e1, 0x400_0000) && bounded3(e2, 0x400_0000));
            lemma_smul_bound(ray.dir.y as int, e2.z as int, 0x4_0000, 0x400_0000);
            lemma_smul_bound(ray.dir.z as int, e2.y as int, 0x4_0000, 0x400_0000);
            lemma_smul_bound(ray.dir.z as int, e2.x as int, 0x4_0000, 0x400_0000);
            lemma_smul_bound(ray.dir.x as int, e2.z as int, 0x4_0000, 0x400_0000);
            lemma_smul_bound(ray.dir.x as int, e2.y as int, 0x4_0000, 0x400_0000);
            lemma_smul_bound(ray.dir.y as int, e2.x as int, 0x4_0000, 0x400_0000);
        }
        let rce2 = ray.dir.cross(e2);
        proof {
            assert(bounded3(rce2, 0x2000_0000));
            lemma_dot3_bound(e1, rce2, 0x400_0000, 0x2000_0000);
        }
        let det = e1.dot(rce2);
        if det > -F_EPSILON && det < F_EPSILON {
            return None;
        }
        let s = ray.origin.sub(self.a);
        proof {
            assert(bounded3(s, 0x400_0000));
            lemma_dot3_bound(s, rce2, 0x400_0000, 0x2000_0000);
        }
        let un = s.dot(rce2);
        let u = match fdiv_checked(un, det) {
            None => {
                return None;
            },
            Some(q) => q,
        };
        if u < 0 || u > SCALE {
            return None;
        }
        proof {
            lemma_smul_bound(s.y as int, e1.z as int, 0x400_0000, 0x400_0000);
            lemma_smul_bound(s.z as int, e1.y as int, 0x400_0000, 0x400_0000);
            lemma_smul_bound(s.z as int, e1.x as int, 0x400_0000, 0x400_0000);
            lemma_smul_bound(s.x as int, e1.z as int, 0x400_0000, 0x400_0000);
            lemma_smul_bound(s.x as int, e1.y as int, 0x400_0000, 0x400_0000);
            lemma_smul_bound(s.y as int, e1.x as int, 0x400_0000, 0x400_0000);
        }
        let sce1 = s.cross(e1);
        proof {
            assert(bounded3(sce1, 0x20_0000_0000));
            lemma_dot3_bound(ray.dir, sce1, 0x4_0000, 0x20_0000_0000);
            lemma_dot3_bound(e2, sce1, 0x400_0000, 0x20_0000_0000);
        }
        let vn = ray.dir.dot(sce1);
        let v = match fdiv_checked(vn, det) {
            None => {
                return None;
            },
            Some(q) => q,
        };
        if v < 0 || u + v > SCALE {
            return None;
        }
        let tn = e2.dot(sce1);
        let tt = match fdiv_checked(tn, det) {
            None => {
                return None;
            },
            Some(q) => q,
        };
        if tt <= F_EPSILON || tt > T_MAX {
            return None;
        }
        proof {
            lemma_smul_bound(ray.dir.x as int, tt as int, 0x4_0000, 0x4_0000_0000);
            lemma_smul_bound(ray.dir.y as int, tt as int, 0x4_0000, 0x4_0000_0000);
            lemma_smul_bound(ray.dir.z as int, tt as int, 0x4_0000, 0x4_0000_0000);
        }
        let p_0 = ray.origin.add(ray.dir.scale(tt));
        proof {
            lemma_smul_bound(e1.y as int, e2.z as int, 0x400_0000, 0x400_0000);
            lemma_smul_bound(e1.z as int, e2.y as int, 0x400_0000, 0x400_0000);
            lemma_smul_bound(e1.z as int, e2.x as int, 0x400_0000, 0x400_0000);
            lemma_smul_bound(e1.x as int, e2.z as int, 0x400_0000, 0x400_0000);
            lemma_smul_bound(e1.x as int, e2.y as int, 0x400_0000, 0x400_0000);
            lemma_smul_bound(e1.y as int, e2.x as int, 0x400_0000, 0x400_0000);
        }
        let nv = e1.cross(e2);
        proof {
            assert(bounded3(nv, 0x20_0000_0000));
        }
        let nd = nv.dot(nv);
        if nd < 1 {
            return None;
        }
        let normal = nv.normalize();
        Some(HitInfo { position: p_0, normal, material: self.material })
    }
}

impl Primitive {
    /// Dispatches the intersection test to the underlying shape.
    pub fn intersect(&self, ray: Ray) -> (r: Option<HitInfo>)
        requires
            wf_primitive(*self),
            wf_ray(ray),
        ensures
            r == spec_primitive_intersect(*self, ray),
            r matches Some(h) ==> hit_in_range(h) && h.material == primitive_material(*self),
    {
        match self {
            Primitive::Sphere(s) => s.intersect(ray),
            Primitive::Triangle(t) => t.intersect(ray),
        }
    }
}

} // verus!
