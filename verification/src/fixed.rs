//! Fixed-point scalars: an `i64` counts 1/4096ths of a world unit.
//!
//! Multiplication, division and square root round toward zero, exactly as the
//! specifications `fmul`, `fdiv` and `fsqrt` below state, so every arithmetic
//! result is pinned to a unique integer.

use vstd::prelude::*;
use vstd::arithmetic::div_mod::{
    lemma_div_is_ordered, lemma_div_multiples_vanish, lemma_div_nonincreasing,
    lemma_div_pos_is_pos, lemma_fundamental_div_mod, lemma_mod_bound,
};

verus! {

/// The fixed-point scale: this value stands for 1.0 world units.
pub const ONE: i64 = 4096;

/// Half of `ONE`: multiplying by it halves a value.
pub const HALF: i64 = 2048;

/// Largest magnitude allowed for scene, light and camera coordinates.
pub const CMAX: i64 = 16777216;

/// Largest magnitude allowed for the origin of a ray handed to an
/// intersection routine (hit points plus a shadow offset stay inside it).
pub const OMAX: i64 = 268435456;

/// Hits whose point leaves this box are discarded, a numeric guard that keeps
/// every later shading computation inside `i64` range.
pub const PMAX: i64 = 67108864;

/// Truncating division: the quotient rounded toward zero, as the executable
/// code computes it.
pub open spec fn tdiv(n: int, d: int) -> int {
    if d >= 0 {
        if n >= 0 {
            n / d
        } else {
            -((-n) / d)
        }
    } else {
        if n >= 0 {
            -(n / (-d))
        } else {
            (-n) / (-d)
        }
    }
}

/// Fixed-point product: `a * b` rescaled by `ONE`, rounded toward zero.
pub open spec fn fmul(a: int, b: int) -> int {
    tdiv(a * b, ONE as int)
}

/// Fixed-point quotient: `a / b` rescaled by `ONE`, rounded toward zero.
pub open spec fn fdiv(a: int, b: int) -> int {
    tdiv(a * (ONE as int), b)
}

/// `r` is the integer square root of `n`, rounded down.
pub open spec fn is_sqrt(n: int, r: int) -> bool {
    0 <= r && r * r <= n && n < (r + 1) * (r + 1)
}

/// The integer square root of `n`, rounded down (meaningful for `n >= 0`).
pub closed spec fn sqrt_floor(n: int) -> int {
    choose|r: int| is_sqrt(n, r)
}

/// Fixed-point square root: the root of `a` rescaled so that it again counts
/// 1/4096ths (meaningful for `a >= 0`).
pub open spec fn fsqrt(a: int) -> int {
    sqrt_floor(a * (ONE as int))
}

/// Two integers with the same square-root floor are equal.
pub proof fn lemma_sqrt_unique(n: int, r1: int, r2: int)
    requires
        is_sqrt(n, r1),
        is_sqrt(n, r2),
    ensures
        r1 == r2,
{
    assert(r1 == r2) by (nonlinear_arith)
        requires
            0 <= r1,
            r1 * r1 <= n,
            n < (r1 + 1) * (r1 + 1),
            0 <= r2,
            r2 * r2 <= n,
            n < (r2 + 1) * (r2 + 1),
    ;
}

/// A witness pins `sqrt_floor` down.
pub proof fn lemma_sqrt_is(n: int, r: int)
    requires
        is_sqrt(n, r),
    ensures
        sqrt_floor(n) == r,
{
    assert(exists|q: int| is_sqrt(n, q));
    lemma_sqrt_unique(n, sqrt_floor(n), r);
}

/// An integer square root exists for every nonnegative integer, so
/// `sqrt_floor` is characterized on them.
pub proof fn lemma_sqrt_exists(n: int)
    requires
        0 <= n,
    ensures
        is_sqrt(n, sqrt_floor(n)),
    decreases n,
{
    if n == 0 {
        lemma_sqrt_is(0, 0);
    } else {
        lemma_sqrt_exists(n - 1);
        let r: int = sqrt_floor(n - 1);
        if n < (r + 1) * (r + 1) {
            lemma_sqrt_is(n, r);
        } else {
            assert(is_sqrt(n, r + 1)) by (nonlinear_arith)
                requires
                    0 <= r,
                    r * r <= n - 1,
                    n - 1 < (r + 1) * (r + 1),
                    (r + 1) * (r + 1) <= n,
            ;
            lemma_sqrt_is(n, r + 1);
        }
    }
}

/// Truncating division by a positive divisor keeps a magnitude bound, and the
/// bound itself shrinks by the divisor.
pub proof fn lemma_tdiv_bound(n: int, d: int, nb: int)
    requires
        1 <= d,
        -nb <= n <= nb,
    ensures
        -tdiv(nb, d) <= tdiv(n, d) <= tdiv(nb, d),
        -nb <= tdiv(n, d) <= nb,
        tdiv(nb, d) <= nb,
{
    let m: int = if n >= 0 { n } else { -n };
    lemma_div_pos_is_pos(m, d);
    lemma_div_is_ordered(m, nb, d);
    lemma_div_pos_is_pos(nb, d);
    lemma_div_nonincreasing(m, d);
    lemma_div_nonincreasing(nb, d);
}

/// Truncating division by a nonzero divisor never grows a magnitude.
pub proof fn lemma_tdiv_abs(n: int, d: int, nb: int)
    requires
        d != 0,
        -nb <= n <= nb,
    ensures
        -nb <= tdiv(n, d) <= nb,
{
    let m: int = if n >= 0 { n } else { -n };
    let e: int = if d >= 0 { d } else { -d };
    lemma_div_pos_is_pos(m, e);
    lemma_div_nonincreasing(m, e);
}

/// Truncating division is monotone on nonnegative numerators.
pub proof fn lemma_tdiv_ordered(n1: int, n2: int, d: int)
    requires
        1 <= d,
        0 <= n1 <= n2,
    ensures
        0 <= tdiv(n1, d) <= tdiv(n2, d),
{
    lemma_div_pos_is_pos(n1, d);
    lemma_div_is_ordered(n1, n2, d);
}

/// Dividing an exact multiple recovers the factor.
pub proof fn lemma_tdiv_exact(x: int, d: int)
    requires
        1 <= d,
    ensures
        tdiv(x * d, d) == x,
{
    if x >= 0 {
        assert(x * d >= 0) by (nonlinear_arith)
            requires
                x >= 0,
                d >= 1,
        ;
        lemma_div_multiples_vanish(x, d);
        assert(x * d == d * x) by (nonlinear_arith);
    } else {
        assert(x * d < 0 && -(x * d) == (-x) * d) by (nonlinear_arith)
            requires
                x < 0,
                d >= 1,
        ;
        lemma_div_multiples_vanish(-x, d);
        assert((-x) * d == d * (-x)) by (nonlinear_arith);
    }
}

/// The remainder of a truncating division has magnitude below the divisor.
pub proof fn lemma_tdiv_rem(n: int, d: int)
    requires
        1 <= d,
    ensures
        -d < n - d * tdiv(n, d) < d,
{
    let m: int = if n >= 0 { n } else { -n };
    lemma_fundamental_div_mod(m, d);
    lemma_mod_bound(m, d);
    if n < 0 {
        assert(d * (-(m / d)) == -(d * (m / d))) by (nonlinear_arith);
    }
}

/// The product of two bounded factors is bounded.
pub proof fn lemma_mul_le(a: int, b: int, ab: int, bb: int)
    requires
        -ab <= a <= ab,
        -bb <= b <= bb,
    ensures
        -(ab * bb) <= a * b <= ab * bb,
{
    assert(-(ab * bb) <= a * b <= ab * bb) by (nonlinear_arith)
        requires
            -ab <= a <= ab,
            -bb <= b <= bb,
    ;
}

/// A fixed-point product of bounded factors is bounded, and the bound shrinks
/// by the scale.
pub proof fn lemma_fmul_bound(a: int, b: int, ab: int, bb: int)
    requires
        -ab <= a <= ab,
        -bb <= b <= bb,
    ensures
        -tdiv(ab * bb, ONE as int) <= fmul(a, b) <= tdiv(ab * bb, ONE as int),
        -(ab * bb) <= fmul(a, b) <= ab * bb,
{
    lemma_mul_le(a, b, ab, bb);
    lemma_tdiv_bound(a * b, ONE as int, ab * bb);
}

/// A fixed-point quotient of a bounded numerator is bounded.
pub proof fn lemma_fdiv_bound(a: int, b: int, ab: int)
    requires
        -ab <= a <= ab,
        b != 0,
    ensures
        -(ab * (ONE as int)) <= fdiv(a, b) <= ab * (ONE as int),
{
    assert(-(ab * (ONE as int)) <= a * (ONE as int) <= ab * (ONE as int));
    lemma_tdiv_abs(a * (ONE as int), b, ab * (ONE as int));
}

/// The ratio of `x` to a larger positive `w` is a fixed-point value in
/// `[0, ONE]`.
pub proof fn lemma_unit_ratio(x: int, w: int)
    requires
        0 <= x <= w,
        1 <= w,
    ensures
        0 <= fdiv(x, w) <= ONE as int,
{
    lemma_tdiv_ordered(x * (ONE as int), w * (ONE as int), w);
    lemma_tdiv_exact(ONE as int, w);
    assert(w * (ONE as int) == (ONE as int) * w) by (nonlinear_arith);
}

/// Truncating division of an `i128` by a positive divisor, computed through
/// unsigned division on the magnitude.
pub(crate) fn tdiv_i128(n: i128, d: i128) -> (r: i128)
    requires
        1 <= d,
        i128::MIN < n,
    ensures
        r as int == tdiv(n as int, d as int),
{
    if n >= 0 {
        let q: u128 = (n as u128) / (d as u128);
        proof {
            lemma_div_pos_is_pos(n as int, d as int);
            lemma_div_nonincreasing(n as int, d as int);
        }
        q as i128
    } else {
        let m: u128 = (-n) as u128;
        let q: u128 = m / (d as u128);
        proof {
            lemma_div_pos_is_pos(m as int, d as int);
            lemma_div_nonincreasing(m as int, d as int);
        }
        -(q as i128)
    }
}

/// Fixed-point multiplication; the exact result must fit an `i64`.
pub fn fp_mul(a: i64, b: i64) -> (r: i64)
    requires
        -0x7fff_ffff_ffff_ffff <= fmul(a as int, b as int) <= 0x7fff_ffff_ffff_ffff,
    ensures
        r as int == fmul(a as int, b as int),
{
    proof {
        assert(-(0x8000_0000_0000_0000 * 0x8000_0000_0000_0000) <= (a as int) * (b as int)
            && (a as int) * (b as int) <= 0x8000_0000_0000_0000 * 0x8000_0000_0000_0000)
            by (nonlinear_arith)
            requires
                -0x8000_0000_0000_0000 <= a as int <= 0x7fff_ffff_ffff_ffff,
                -0x8000_0000_0000_0000 <= b as int <= 0x7fff_ffff_ffff_ffff,
        ;
    }
    let p: i128 = (a as i128) * (b as i128);
    let q: i128 = tdiv_i128(p, 4096);
    q as i64
}

/// Fixed-point division; the divisor must be nonzero and the exact result
/// must fit an `i64`.
pub fn fp_div(a: i64, b: i64) -> (r: i64)
    requires
        b != 0,
        -0x7fff_ffff_ffff_ffff <= fdiv(a as int, b as int) <= 0x7fff_ffff_ffff_ffff,
    ensures
        r as int == fdiv(a as int, b as int),
{
    let num: i128 = (a as i128) * 4096;
    if b > 0 {
        let q: i128 = tdiv_i128(num, b as i128);
        q as i64
    } else {
        let q: i128 = tdiv_i128(num, -(b as i128));
        (-q) as i64
    }
}

/// The integer square root of a `u128`, rounded down, by bisection.
pub(crate) fn isqrt_u128(n: u128) -> (r: u128)
    ensures
        is_sqrt(n as int, r as int),
{
    let mut lo: u128 = 0;
    let mut hi: u128 = 0x1_0000_0000_0000_0000;
    proof {
        assert((0x1_0000_0000_0000_0000 as int) * (0x1_0000_0000_0000_0000 as int)
            > n as int);
    }
    while lo + 1 < hi
        invariant
            lo < hi <= 0x1_0000_0000_0000_0000,
            (lo as int) * (lo as int) <= n as int,
            (n as int) < (hi as int) * (hi as int),
        decreases hi - lo,
    {
        let mid: u128 = lo + (hi - lo) / 2;
        proof {
            assert(mid < hi);
            assert((mid as int) * (mid as int)
                <= 0xffff_ffff_ffff_ffff * 0xffff_ffff_ffff_ffff)
                by (nonlinear_arith)
                requires
                    0 <= mid as int <= 0xffff_ffff_ffff_ffff,
            ;
        }
        let sq: u128 = mid * mid;
        if sq <= n {
            lo = mid;
        } else {
            hi = mid;
        }
    }
    proof {
        assert(hi == lo + 1);
    }
    lo
}

/// Fixed-point square root of a nonnegative value.
pub fn fp_sqrt(a: i64) -> (r: i64)
    requires
        0 <= a,
    ensures
        r as int == fsqrt(a as int),
        is_sqrt((a as int) * (ONE as int), r as int),
        0 <= r,
{
    let n: u128 = (a as u128) * 4096;
    let s: u128 = isqrt_u128(n);
    proof {
        lemma_sqrt_is(n as int, s as int);
        assert(s as int <= 0x40_0000_0000) by (nonlinear_arith)
            requires
                0 <= s as int,
                (s as int) * (s as int) <= n as int,
                n as int <= 0x8000_0000_0000_0000 * 4096,
        ;
    }
    s as i64
}

} // verus!
