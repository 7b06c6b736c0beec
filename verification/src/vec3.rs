//! 3-component vectors over fixed-point scalars, with exact contracts for
//! the sum, difference, componentwise product, scalar product, dot product,
//! cross product and normalization used by the renderer.

use vstd::prelude::*;

use crate::fixed::{fdiv, fmul, fsqrt, iabs, lemma_mul_bound, lemma_tdiv_bound, sqrt_floor, tdiv,
    SCALE};

verus! {

/// A componentwise magnitude bound under which every vector operation below
/// is free of overflow.
pub const VEC_BOUND: i64 = 0x40_0000_0000;

#[derive(Clone, Copy, Debug, PartialEq, Eq, Structural)]
pub struct Vec3 {
    pub x: i64,
    pub y: i64,
    pub z: i64,
}

/// Every component of `v` has magnitude at most `b`.
pub open spec fn bounded3(v: Vec3, b: int) -> bool {
    iabs(v.x as int) <= b && iabs(v.y as int) <= b && iabs(v.z as int) <= b
}

/// Fixed-point product of two scalars (model of `fmul`).
pub open spec fn smul(a: int, b: int) -> int {
    tdiv(a * b, SCALE as int)
}

/// Fixed-point dot product: the sum of the componentwise fixed products.
pub open spec fn dot3(a: Vec3, b: Vec3) -> int {
    smul(a.x as int, b.x as int) + smul(a.y as int, b.y as int) + smul(a.z as int, b.z as int)
}

/// Components of the fixed-point cross product.
pub open spec fn cross3_x(a: Vec3, b: Vec3) -> int {
    smul(a.y as int, b.z as int) - smul(a.z as int, b.y as int)
}

pub open spec fn cross3_y(a: Vec3, b: Vec3) -> int {
    smul(a.z as int, b.x as int) - smul(a.x as int, b.z as int)
}

pub open spec fn cross3_z(a: Vec3, b: Vec3) -> int {
    smul(a.x as int, b.y as int) - smul(a.y as int, b.x as int)
}

/// Fixed-point Euclidean norm of `v`.
pub open spec fn magnitude3(v: Vec3) -> int {
    sqrt_floor(dot3(v, v) * SCALE as int)
}

/// Component `c` of a vector divided by the scalar `m` in fixed point.
pub open spec fn norm_comp(c: int, m: int) -> int {
    tdiv(c * SCALE as int, m)
}

/// Builds a vector from mathematical components (faithful when they fit).
pub open spec fn v3(x: int, y: int, z: int) -> Vec3 {
    Vec3 { x: x as i64, y: y as i64, z: z as i64 }
}

/// Specification-level vector sum.
pub open spec fn vadd(a: Vec3, b: Vec3) -> Vec3 {
    v3(a.x + b.x, a.y + b.y, a.z + b.z)
}

/// Specification-level vector difference.
pub open spec fn vsub(a: Vec3, b: Vec3) -> Vec3 {
    v3(a.x - b.x, a.y - b.y, a.z - b.z)
}

/// Specification-level componentwise fixed product.
pub open spec fn vmul(a: Vec3, b: Vec3) -> Vec3 {
    v3(smul(a.x as int, b.x as int), smul(a.y as int, b.y as int), smul(a.z as int, b.z as int))
}

/// Specification-level scalar product.
pub open spec fn vscale(a: Vec3, s: int) -> Vec3 {
    v3(smul(a.x as int, s), smul(a.y as int, s), smul(a.z as int, s))
}

/// Specification-level cross product.
pub open spec fn vcross(a: Vec3, b: Vec3) -> Vec3 {
    v3(cross3_x(a, b), cross3_y(a, b), cross3_z(a, b))
}

/// Specification-level normalization.
pub open spec fn vnormalize(v: Vec3) -> Vec3 {
    v3(
        norm_comp(v.x as int, magnitude3(v)),
        norm_comp(v.y as int, magnitude3(v)),
        norm_comp(v.z as int, magnitude3(v)),
    )
}

/// The zero vector.
pub open spec fn zerov() -> Vec3 {
    Vec3 { x: 0, y: 0, z: 0 }
}

/// The white colour: one in every channel.
pub open spec fn whitev() -> Vec3 {
    Vec3 { x: 65536, y: 65536, z: 65536 }
}

/// A bound on both factors bounds their fixed product.
pub proof fn lemma_smul_bound(a: int, b: int, ba: int, bb: int)
    requires
        iabs(a) <= ba,
        iabs(b) <= bb,
    ensures
        iabs(smul(a, b)) <= (ba * bb) / (SCALE as int),
        iabs(smul(a, b)) <= ba * bb,
{
    lemma_mul_bound(a, b, ba, bb);
    lemma_tdiv_bound(a * b, SCALE as int, ba * bb);
    vstd::arithmetic::div_mod::lemma_div_nonincreasing(ba * bb, SCALE as int);
    vstd::arithmetic::div_mod::lemma_div_pos_is_pos(ba * bb, SCALE as int);
}

/// A square is never negative, so a dot product of a vector with itself is
/// never negative either.
pub proof fn lemma_dot3_self_nonneg(v: Vec3)
    ensures
        dot3(v, v) >= 0,
{
    assert(v.x as int * v.x as int >= 0) by (nonlinear_arith);
    assert(v.y as int * v.y as int >= 0) by (nonlinear_arith);
    assert(v.z as int * v.z as int >= 0) by (nonlinear_arith);
    vstd::arithmetic::div_mod::lemma_div_pos_is_pos(v.x as int * v.x as int, SCALE as int);
    vstd::arithmetic::div_mod::lemma_div_pos_is_pos(v.y as int * v.y as int, SCALE as int);
    vstd::arithmetic::div_mod::lemma_div_pos_is_pos(v.z as int * v.z as int, SCALE as int);
}

/// Componentwise bounds bound the dot product.
pub proof fn lemma_dot3_bound(a: Vec3, b: Vec3, ba: int, bb: int)
    requires
        bounded3(a, ba),
        bounded3(b, bb),
    ensures
        iabs(dot3(a, b)) <= 3 * ((ba * bb) / (SCALE as int)),
{
    lemma_smul_bound(a.x as int, b.x as int, ba, bb);
    lemma_smul_bound(a.y as int, b.y as int, ba, bb);
    lemma_smul_bound(a.z as int, b.z as int, ba, bb);
}

/// One component of a normalized vector is at most two (in fixed point).
proof fn lemma_norm_comp_le(c: int, d: int)
    requires
        d >= 1,
        d >= smul(c, c),
    ensures
        iabs(norm_comp(c, sqrt_floor(d * SCALE as int))) <= 2 * SCALE as int,
{
    let n = d * SCALE as int;
    assert(d * SCALE as int >= SCALE as int) by (nonlinear_arith)
        requires
            d >= 1,
    ;
    assert(n >= SCALE as int);
    crate::fixed::lemma_sqrt_floor_bracket(n);
    let m = sqrt_floor(n);
    assert(m >= 256) by {
        if m <= 255 {
            assert((m + 1) * (m + 1) <= 256 * 256) by (nonlinear_arith)
                requires
                    0 <= m <= 255,
            ;
        }
    }
    // c * c exceeds its truncated scaled square by less than one scale unit
    assert(c * c >= 0) by (nonlinear_arith);
    vstd::arithmetic::div_mod::lemma_fundamental_div_mod(c * c, SCALE as int);
    vstd::arithmetic::div_mod::lemma_remainder_upper(c * c, SCALE as int);
    vstd::arithmetic::div_mod::lemma_remainder_lower(c * c, SCALE as int);
    assert(c * c <= smul(c, c) * (SCALE as int) + SCALE);
    assert(smul(c, c) * (SCALE as int) <= d * (SCALE as int)) by (nonlinear_arith)
        requires
            smul(c, c) <= d,
    ;
    assert(c * c <= n + SCALE);
    assert(n < (m + 1) * (m + 1));
    assert(c * c < (m + 257) * (m + 257)) by (nonlinear_arith)
        requires
            c * c <= n + 65536,
            n < (m + 1) * (m + 1),
            m >= 0,
    ;
    assert(iabs(c) <= m + 256) by {
        if iabs(c) >= m + 257 {
            assert(c * c >= (m + 257) * (m + 257)) by (nonlinear_arith)
                requires
                    iabs(c) >= m + 257,
                    m >= 0,
            ;
        }
    }
    assert(iabs(c) <= 2 * m);
    assert(iabs(c * SCALE as int) == iabs(c) * SCALE as int) by (nonlinear_arith);
    assert(iabs(c) * SCALE as int <= 2 * m * SCALE as int) by (nonlinear_arith)
        requires
            iabs(c) <= 2 * m,
    ;
    vstd::arithmetic::div_mod::lemma_div_is_ordered(
        iabs(c) * SCALE as int,
        2 * m * SCALE as int,
        m,
    );
    assert(2 * m * SCALE as int == (2 * SCALE as int) * m) by (nonlinear_arith);
    vstd::arithmetic::div_mod::lemma_div_by_multiple(2 * SCALE as int, m);
    vstd::arithmetic::div_mod::lemma_div_pos_is_pos(iabs(c) * SCALE as int, m);
}

/// A vector of magnitude at least one normalizes to components of magnitude
/// at most two.
pub proof fn lemma_normalize_bounded(v: Vec3)
    requires
        dot3(v, v) >= 1,
    ensures
        bounded3(vnormalize(v), 2 * SCALE as int),
{
    let d = dot3(v, v);
    assert(smul(v.x as int, v.x as int) >= 0 && smul(v.y as int, v.y as int) >= 0 && smul(
        v.z as int,
        v.z as int,
    ) >= 0) by {
        lemma_dot3_self_nonneg_parts_pub(v);
    }
    lemma_norm_comp_le(v.x as int, d);
    lemma_norm_comp_le(v.y as int, d);
    lemma_norm_comp_le(v.z as int, d);
}

/// Each summand of a self dot product is non-negative.
pub proof fn lemma_dot3_self_nonneg_parts_pub(v: Vec3)
    ensures
        smul(v.x as int, v.x as int) >= 0,
        smul(v.y as int, v.y as int) >= 0,
        smul(v.z as int, v.z as int) >= 0,
{
    assert(v.x as int * v.x as int >= 0) by (nonlinear_arith);
    assert(v.y as int * v.y as int >= 0) by (nonlinear_arith);
    assert(v.z as int * v.z as int >= 0) by (nonlinear_arith);
    vstd::arithmetic::div_mod::lemma_div_pos_is_pos(v.x as int * v.x as int, SCALE as int);
    vstd::arithmetic::div_mod::lemma_div_pos_is_pos(v.y as int * v.y as int, SCALE as int);
    vstd::arithmetic::div_mod::lemma_div_pos_is_pos(v.z as int * v.z as int, SCALE as int);
}

/// Builds the vector with the given components.
pub fn new(x: i64, y: i64, z: i64) -> (v: Vec3)
    ensures
        v.x == x,
        v.y == y,
        v.z == z,
{
    Vec3 { x, y, z }
}

impl Vec3 {
    /// Componentwise sum.
    pub fn add(self, rhs: Vec3) -> (r: Vec3)
        requires
            iabs(self.x + rhs.x) <= 0x7fff_ffff_ffff_ffff,
            iabs(self.y + rhs.y) <= 0x7fff_ffff_ffff_ffff,
            iabs(self.z + rhs.z) <= 0x7fff_ffff_ffff_ffff,
        ensures
            r.x == self.x + rhs.x,
            r.y == self.y + rhs.y,
            r.z == self.z + rhs.z,
            r == vadd(self, rhs),
    {
        Vec3 { x: self.x + rhs.x, y: self.y + rhs.y, z: self.z + rhs.z }
    }

    /// Componentwise difference.
    pub fn sub(self, rhs: Vec3) -> (r: Vec3)
        requires
            iabs(self.x - rhs.x) <= 0x7fff_ffff_ffff_ffff,
            iabs(self.y - rhs.y) <= 0x7fff_ffff_ffff_ffff,
            iabs(self.z - rhs.z) <= 0x7fff_ffff_ffff_ffff,
        ensures
            r.x == self.x - rhs.x,
            r.y == self.y - rhs.y,
            r.z == self.z - rhs.z,
            r == vsub(self, rhs),
    {
        Vec3 { x: self.x - rhs.x, y: self.y - rhs.y, z: self.z - rhs.z }
    }

    /// Componentwise fixed-point product.
    pub fn mul(self, rhs: Vec3) -> (r: Vec3)
        requires
            bounded3(self, VEC_BOUND as int),
            bounded3(rhs, VEC_BOUND as int),
        ensures
            r.x as int == smul(self.x as int, rhs.x as int),
            r.y as int == smul(self.y as int, rhs.y as int),
            r.z as int == smul(self.z as int, rhs.z as int),
            r == vmul(self, rhs),
    {
        proof {
            lemma_smul_bound(self.x as int, rhs.x as int, VEC_BOUND as int, VEC_BOUND as int);
            lemma_smul_bound(self.y as int, rhs.y as int, VEC_BOUND as int, VEC_BOUND as int);
            lemma_smul_bound(self.z as int, rhs.z as int, VEC_BOUND as int, VEC_BOUND as int);
        }
        Vec3 { x: fmul(self.x, rhs.x), y: fmul(self.y, rhs.y), z: fmul(self.z, rhs.z) }
    }

    /// Product with a fixed-point scalar.
    pub fn scale(self, s: i64) -> (r: Vec3)
        requires
            bounded3(self, VEC_BOUND as int),
            iabs(s as int) <= VEC_BOUND as int,
        ensures
            r.x as int == smul(self.x as int, s as int),
            r.y as int == smul(self.y as int, s as int),
            r.z as int == smul(self.z as int, s as int),
            r == vscale(self, s as int),
    {
        proof {
            lemma_smul_bound(self.x as int, s as int, VEC_BOUND as int, VEC_BOUND as int);
            lemma_smul_bound(self.y as int, s as int, VEC_BOUND as int, VEC_BOUND as int);
            lemma_smul_bound(self.z as int, s as int, VEC_BOUND as int, VEC_BOUND as int);
        }
        Vec3 { x: fmul(self.x, s), y: fmul(self.y, s), z: fmul(self.z, s) }
    }

    /// Fixed-point dot product.
    pub fn dot(self, rhs: Vec3) -> (r: i64)
        requires
            bounded3(self, VEC_BOUND as int),
            bounded3(rhs, VEC_BOUND as int),
        ensures
            r as int == dot3(self, rhs),
    {
        proof {
            lemma_smul_bound(self.x as int, rhs.x as int, VEC_BOUND as int, VEC_BOUND as int);
            lemma_smul_bound(self.y as int, rhs.y as int, VEC_BOUND as int, VEC_BOUND as int);
            lemma_smul_bound(self.z as int, rhs.z as int, VEC_BOUND as int, VEC_BOUND as int);
        }
        fmul(self.x, rhs.x) + fmul(self.y, rhs.y) + fmul(self.z, rhs.z)
    }

    /// Fixed-point cross product.
    pub fn cross(self, rhs: Vec3) -> (r: Vec3)
        requires
            bounded3(self, VEC_BOUND as int),
            bounded3(rhs, VEC_BOUND as int),
        ensures
            r.x as int == cross3_x(self, rhs),
            r.y as int == cross3_y(self, rhs),
            r.z as int == cross3_z(self, rhs),
            r == vcross(self, rhs),
    {
        proof {
            lemma_smul_bound(self.y as int, rhs.z as int, VEC_BOUND as int, VEC_BOUND as int);
            lemma_smul_bound(self.z as int, rhs.y as int, VEC_BOUND as int, VEC_BOUND as int);
            lemma_smul_bound(self.z as int, rhs.x as int, VEC_BOUND as int, VEC_BOUND as int);
            lemma_smul_bound(self.x as int, rhs.z as int, VEC_BOUND as int, VEC_BOUND as int);
            lemma_smul_bound(self.x as int, rhs.y as int, VEC_BOUND as int, VEC_BOUND as int);
            lemma_smul_bound(self.y as int, rhs.x as int, VEC_BOUND as int, VEC_BOUND as int);
        }
        Vec3 {
            x: fmul(self.y, rhs.z) - fmul(self.z, rhs.y),
            y: fmul(self.z, rhs.x) - fmul(self.x, rhs.z),
            z: fmul(self.x, rhs.y) - fmul(self.y, rhs.x),
        }
    }

    /// Fixed-point Euclidean norm.
    pub fn magnitude(self) -> (r: i64)
        requires
            bounded3(self, VEC_BOUND as int),
        ensures
            r as int == magnitude3(self),
            r >= 0,
    {
        proof {
            lemma_dot3_self_nonneg(self);
        }
        let d = self.dot(self);
        fsqrt(d)
    }

    /// Scales `self` by the reciprocal of its own norm, yielding an
    /// approximately unit-length vector.
    pub fn normalize(self) -> (r: Vec3)
        requires
            bounded3(self, VEC_BOUND as int),
            dot3(self, self) >= 1,
        ensures
            r.x as int == norm_comp(self.x as int, magnitude3(self)),
            r.y as int == norm_comp(self.y as int, magnitude3(self)),
            r.z as int == norm_comp(self.z as int, magnitude3(self)),
            r == vnormalize(self),
            bounded3(r, 2 * SCALE as int),
            magnitude3(self) >= 1,
    {
        let m = self.magnitude();
        proof {
            lemma_dot3_self_nonneg(self);
            assert(dot3(self, self) * SCALE as int >= SCALE as int) by (nonlinear_arith)
                requires
                    dot3(self, self) >= 1,
            ;
            crate::fixed::lemma_sqrt_floor_bracket(dot3(self, self) * SCALE as int);
            let sf = magnitude3(self);
            if sf == 0 {
                assert((sf + 1) * (sf + 1) == 1) by (nonlinear_arith)
                    requires
                        sf == 0,
                ;
                assert(false);
            }
            assert(m >= 1);
            lemma_mul_bound(self.x as int, SCALE as int, VEC_BOUND as int, SCALE as int);
            lemma_mul_bound(self.y as int, SCALE as int, VEC_BOUND as int, SCALE as int);
            lemma_mul_bound(self.z as int, SCALE as int, VEC_BOUND as int, SCALE as int);
            lemma_tdiv_bound(self.x as int * SCALE as int, m as int, VEC_BOUND as int * SCALE as int);
            lemma_tdiv_bound(self.y as int * SCALE as int, m as int, VEC_BOUND as int * SCALE as int);
            lemma_tdiv_bound(self.z as int * SCALE as int, m as int, VEC_BOUND as int * SCALE as int);
            lemma_normalize_bounded(self);
        }
        Vec3 { x: fdiv(self.x, m), y: fdiv(self.y, m), z: fdiv(self.z, m) }
    }
}

} // verus!
