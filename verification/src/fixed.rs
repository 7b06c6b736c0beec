//! Fixed-point scalars: an `i64` holds a real value times `SCALE` (2^16).
//!
//! Multiplication and division truncate toward zero, as `tdiv` states, and a
//! square root rounds down, as `sqrt_floor` states. Every executable
//! operation carries an exact integer contract.

use vstd::prelude::*;

verus! {

/// Number of fixed-point units per whole unit: values are scaled by 2^16.
pub const SCALE: i64 = 65536;

/// Absolute value of a mathematical integer.
pub open spec fn iabs(x: int) -> int {
    if x >= 0 {
        x
    } else {
        -x
    }
}

/// Division of `p` by `d` truncated toward zero (the semantics of the
/// executable fixed-point operations).
pub open spec fn tdiv(p: int, d: int) -> int
    recommends
        d != 0,
{
    let q = iabs(p) / iabs(d);
    if (p >= 0) == (d >= 0) {
        q
    } else {
        -q
    }
}

/// The greatest integer whose square does not exceed `n` (for `n >= 0`).
pub open spec fn sqrt_floor(n: int) -> int
    recommends
        n >= 0,
{
    choose|r: int| 0 <= r && #[trigger] (r * r) <= n && n < (r + 1) * (r + 1)
}

/// `sqrt_floor` is pinned down by the bracketing property.
pub proof fn lemma_sqrt_floor_unique(n: int, r: int)
    requires
        0 <= r,
        r * r <= n,
        n < (r + 1) * (r + 1),
    ensures
        sqrt_floor(n) == r,
{
    assert(exists|q: int| 0 <= q && #[trigger] (q * q) <= n && n < (q + 1) * (q + 1)) by {
        assert(0 <= r && r * r <= n && n < (r + 1) * (r + 1));
    }
    let q = sqrt_floor(n);
    assert(0 <= q && q * q <= n && n < (q + 1) * (q + 1));
    if q < r {
        assert((q + 1) * (q + 1) <= r * r) by (nonlinear_arith)
            requires
                0 <= q,
                q < r,
        ;
    }
    if r < q {
        assert((r + 1) * (r + 1) <= q * q) by (nonlinear_arith)
            requires
                0 <= r,
                r < q,
        ;
    }
}

/// For every `n >= 0` there is a floor square root, so `sqrt_floor` itself
/// satisfies the bracketing property.
pub proof fn lemma_sqrt_floor_bracket(n: int)
    requires
        n >= 0,
    ensures
        0 <= sqrt_floor(n),
        sqrt_floor(n) * sqrt_floor(n) <= n,
        n < (sqrt_floor(n) + 1) * (sqrt_floor(n) + 1),
    decreases n,
{
    if n == 0 {
        lemma_sqrt_floor_unique(0, 0);
    } else {
        lemma_sqrt_floor_bracket(n - 1);
        let r = sqrt_floor(n - 1);
        if n < (r + 1) * (r + 1) {
            lemma_sqrt_floor_unique(n, r);
        } else {
            assert(n == (r + 1) * (r + 1));
            assert((r + 1) * (r + 1) < (r + 2) * (r + 2)) by (nonlinear_arith)
                requires
                    r >= 0,
            ;
            lemma_sqrt_floor_unique(n, r + 1);
        }
    }
}

/// A floor square root is bounded by any `b` whose square dominates `n`.
pub proof fn lemma_sqrt_floor_le(n: int, b: int)
    requires
        0 <= n,
        0 <= b,
        n <= b * b,
    ensures
        0 <= sqrt_floor(n) <= b,
{
    lemma_sqrt_floor_bracket(n);
    if sqrt_floor(n) > b {
        assert(sqrt_floor(n) * sqrt_floor(n) > b * b) by (nonlinear_arith)
            requires
                sqrt_floor(n) >= b + 1,
                b >= 0,
        ;
    }
}

/// A bound on the dividend carries to a truncating quotient.
pub proof fn lemma_tdiv_bound(p: int, d: int, b: int)
    requires
        d >= 1,
        iabs(p) <= b,
    ensures
        iabs(tdiv(p, d)) <= b / d,
        -b <= tdiv(p, d) <= b,
{
    vstd::arithmetic::div_mod::lemma_div_is_ordered(0, iabs(p), d);
    vstd::arithmetic::div_mod::lemma_div_is_ordered(iabs(p), b, d);
    vstd::arithmetic::div_mod::lemma_div_nonincreasing(b, d);
    vstd::arithmetic::div_mod::lemma_div_pos_is_pos(b, d);
}

/// Bounds on both factors carry to their product.
pub proof fn lemma_mul_bound(a: int, b: int, ba: int, bb: int)
    by (nonlinear_arith)
    requires
        iabs(a) <= ba,
        iabs(b) <= bb,
    ensures
        iabs(a * b) <= ba * bb,
{
}

/// Multiplying by a whole multiple of the scale and rescaling is exact.
pub proof fn lemma_tdiv_exact(a: int, d: int)
    requires
        d >= 1,
    ensures
        tdiv(a * d, d) == a,
{
    if a >= 0 {
        vstd::arithmetic::div_mod::lemma_div_by_multiple(a, d);
        assert(a * d >= 0) by (nonlinear_arith)
            requires
                a >= 0,
                d >= 1,
        ;
        assert(iabs(a * d) == a * d);
    } else {
        vstd::arithmetic::div_mod::lemma_div_by_multiple(-a, d);
        assert(a * d < 0 && iabs(a * d) == (-a) * d) by (nonlinear_arith)
            requires
                a < 0,
                d >= 1,
        ;
    }
}

/// Fixed-point product: `tdiv(a * b, SCALE)`, truncated toward zero.
pub fn fmul(a: i64, b: i64) -> (r: i64)
    requires
        iabs(tdiv(a as int * b as int, SCALE as int)) <= 0x7fff_ffff_ffff_ffff,
    ensures
        r as int == tdiv(a as int * b as int, SCALE as int),
{
    proof {
        assert(iabs(a as int * b as int) <= 0x8000_0000_0000_0000 * 0x8000_0000_0000_0000)
            by (nonlinear_arith)
            requires
                iabs(a as int) <= 0x8000_0000_0000_0000,
                iabs(b as int) <= 0x8000_0000_0000_0000,
        ;
    }
    let p: i128 = (a as i128) * (b as i128);
    if p >= 0 {
        let q: u128 = (p as u128) / (SCALE as u128);
        proof {
            assert(q == tdiv(a as int * b as int, SCALE as int));
        }
        q as i64
    } else {
        let m: u128 = ((-p) as u128) / (SCALE as u128);
        proof {
            assert(m == iabs(a as int * b as int) / (SCALE as int));
        }
        -(m as i64)
    }
}

/// Fixed-point quotient: `tdiv(a * SCALE, b)`, truncated toward zero.
pub fn fdiv(a: i64, b: i64) -> (r: i64)
    requires
        b != 0,
        iabs(tdiv(a as int * SCALE as int, b as int)) <= 0x7fff_ffff_ffff_ffff,
    ensures
        r as int == tdiv(a as int * SCALE as int, b as int),
{
    proof {
        assert(iabs(a as int * SCALE as int) <= 0x8000_0000_0000_0000 * 65536)
            by (nonlinear_arith)
            requires
                iabs(a as int) <= 0x8000_0000_0000_0000,
        ;
    }
    let p: i128 = (a as i128) * (SCALE as i128);
    let pm: u128 = if p >= 0 {
        p as u128
    } else {
        (-p) as u128
    };
    let dm: u128 = if b >= 0 {
        b as u128
    } else {
        (-(b as i128)) as u128
    };
    let q: u128 = pm / dm;
    proof {
        assert(q == iabs(a as int * SCALE as int) / iabs(b as int));
    }
    if (p >= 0) == (b >= 0) {
        q as i64
    } else {
        -(q as i64)
    }
}

/// Fixed-point quotient with an overflow check: `Some` exactly when the
/// truncated quotient fits the scalar type.
pub open spec fn sdiv_checked(a: int, b: int) -> Option<int>
    recommends
        b != 0,
{
    let q = tdiv(a * SCALE as int, b);
    if iabs(q) <= 0x7fff_ffff_ffff_ffff {
        Option::Some(q)
    } else {
        Option::None
    }
}

/// Fixed-point quotient that reports overflow instead of requiring its
/// absence.
pub fn fdiv_checked(a: i64, b: i64) -> (r: Option<i64>)
    requires
        b != 0,
    ensures
        r matches Some(q) ==> sdiv_checked(a as int, b as int) == Some(q as int),
        r is None ==> sdiv_checked(a as int, b as int) is None,
{
    proof {
        assert(iabs(a as int * SCALE as int) <= 0x8000_0000_0000_0000 * 65536)
            by (nonlinear_arith)
            requires
                iabs(a as int) <= 0x8000_0000_0000_0000,
        ;
    }
    let p: i128 = (a as i128) * (SCALE as i128);
    let pm: u128 = if p >= 0 {
        p as u128
    } else {
        (-p) as u128
    };
    let dm: u128 = if b >= 0 {
        b as u128
    } else {
        (-(b as i128)) as u128
    };
    let q: u128 = pm / dm;
    proof {
        assert(q == iabs(a as int * SCALE as int) / iabs(b as int));
    }
    if q > 0x7fff_ffff_ffff_ffff {
        None
    } else if (p >= 0) == (b >= 0) {
        Some(q as i64)
    } else {
        Some(-(q as i64))
    }
}

/// Integer square root by bisection: the greatest `r` with `r * r <= n`.
pub fn isqrt(n: u128) -> (r: u64)
    requires
        n < 0x4000_0000_0000_0000_0000_0000_0000_0000,
    ensures
        r as int * r as int <= n as int,
        (n as int) < (r as int + 1) * (r as int + 1),
        r as int == sqrt_floor(n as int),
{
    let mut lo: u128 = 0;
    let mut hi: u128 = 0x8000_0000_0000_0000;
    proof {
        assert(hi as int * hi as int == 0x4000_0000_0000_0000_0000_0000_0000_0000int);
    }
    while lo + 1 < hi
        invariant
            0 <= lo < hi <= 0x8000_0000_0000_0000,
            lo as int * lo as int <= n as int,
            (n as int) < hi as int * hi as int,
        decreases hi - lo,
    {
        let mid: u128 = lo + (hi - lo) / 2;
        assert(lo < mid < hi);
        proof {
            assert(mid as int * mid as int <= 0x8000_0000_0000_0000 * 0x8000_0000_0000_0000)
                by (nonlinear_arith)
                requires
                    0 <= mid as int <= 0x8000_0000_0000_0000,
            ;
        }
        let sq: u128 = mid * mid;
        if sq <= n {
            lo = mid;
        } else {
            hi = mid;
        }
    }
    proof {
        assert(hi == lo + 1);
        lemma_sqrt_floor_unique(n as int, lo as int);
    }
    lo as u64
}

/// Fixed-point square root: `sqrt_floor(x * SCALE)`, so that the result is
/// again a fixed-point value.
pub fn fsqrt(x: i64) -> (r: i64)
    requires
        x >= 0,
    ensures
        0 <= r,
        r as int * r as int <= x as int * SCALE as int,
        (x as int * SCALE as int) < (r as int + 1) * (r as int + 1),
        r as int == sqrt_floor(x as int * SCALE as int),
{
    proof {
        assert(x as int * SCALE as int <= 0x7fff_ffff_ffff_ffff * 65536)
            by (nonlinear_arith)
            requires
                0 <= x as int <= 0x7fff_ffff_ffff_ffff,
        ;
    }
    let n: u128 = (x as u128) * (SCALE as u128);
    let r = isqrt(n);
    proof {
        assert((r as int * r as int) < 0x8000_0000_0000_0000 * 0x8000_0000_0000_0000)
            by (nonlinear_arith)
            requires
                0 <= r as int,
                r as int * r as int <= n as int,
                (n as int) < 0x8000_0000_0000_0000 * 0x8000_0000_0000_0000,
        ;
        assert(r as int <= 0x7fff_ffff_ffff_ffff) by {
            if r as int > 0x7fff_ffff_ffff_ffff {
                assert(r as int * r as int >= 0x8000_0000_0000_0000 * 0x8000_0000_0000_0000)
                    by (nonlinear_arith)
                    requires
                        r as int >= 0x8000_0000_0000_0000,
                ;
            }
        }
    }
    r as i64
}

} // verus!
