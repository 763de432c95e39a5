//! 3-component vectors over fixed-point scalars, with their mathematical
//! models and the bound lemmas the geometry routines lean on.

use vstd::prelude::*;
use vstd::arithmetic::div_mod::{lemma_div_is_ordered, lemma_div_multiples_vanish};
use crate::fixed::{
    fdiv, fmul, is_sqrt, lemma_fmul_bound, lemma_mul_le, lemma_sqrt_exists, lemma_sqrt_is,
    lemma_tdiv_bound, lemma_tdiv_exact, sqrt_floor, tdiv, isqrt_u128,
    fp_div, fp_mul, ONE,
};

verus! {

/// Mathematical model of a vector: unbounded integer components.
pub struct V3 {
    pub x: int,
    pub y: int,
    pub z: int,
}

/// A vector of three fixed-point scalars (each counts 1/4096ths).
#[derive(Clone, Copy, PartialEq, Eq, Structural, Debug)]
pub struct Vector3D {
    pub x: i64,
    pub y: i64,
    pub z: i64,
}

impl View for Vector3D {
    type V = V3;

    open spec fn view(&self) -> V3 {
        V3 { x: self.x as int, y: self.y as int, z: self.z as int }
    }
}

/// The zero vector.
pub open spec fn zerov() -> V3 {
    V3 { x: 0, y: 0, z: 0 }
}

/// Every component of `v` has magnitude at most `b`.
pub open spec fn in_box(v: V3, b: int) -> bool {
    &&& -b <= v.x <= b
    &&& -b <= v.y <= b
    &&& -b <= v.z <= b
}

pub open spec fn v_add(a: V3, b: V3) -> V3 {
    V3 { x: a.x + b.x, y: a.y + b.y, z: a.z + b.z }
}

pub open spec fn v_sub(a: V3, b: V3) -> V3 {
    V3 { x: a.x - b.x, y: a.y - b.y, z: a.z - b.z }
}

pub open spec fn v_neg(a: V3) -> V3 {
    V3 { x: -a.x, y: -a.y, z: -a.z }
}

/// Componentwise product with a fixed-point scalar.
pub open spec fn v_scale(a: V3, k: int) -> V3 {
    V3 { x: fmul(a.x, k), y: fmul(a.y, k), z: fmul(a.z, k) }
}

/// Fixed-point dot product: the component products are summed exactly, then
/// rescaled once.
pub open spec fn v_dot(a: V3, b: V3) -> int {
    tdiv(a.x * b.x + a.y * b.y + a.z * b.z, ONE as int)
}

/// Fixed-point cross product, right-hand rule.
pub open spec fn v_cross(a: V3, b: V3) -> V3 {
    V3 {
        x: tdiv(a.y * b.z - a.z * b.y, ONE as int),
        y: tdiv(a.z * b.x - a.x * b.z, ONE as int),
        z: tdiv(a.x * b.y - a.y * b.x, ONE as int),
    }
}

/// The squared length in raw units; its square root is again a fixed-point
/// scalar, so no rescaling happens here.
pub open spec fn lensq(a: V3) -> int {
    a.x * a.x + a.y * a.y + a.z * a.z
}

/// Fixed-point length.
pub open spec fn vlen(a: V3) -> int {
    sqrt_floor(lensq(a))
}

/// Fixed-point normalization: each component divided by the length.
pub open spec fn vnorm(a: V3) -> V3 {
    V3 {
        x: fdiv(a.x, vlen(a)),
        y: fdiv(a.y, vlen(a)),
        z: fdiv(a.z, vlen(a)),
    }
}

/// Normalization extended to the zero vector, which it keeps.
pub open spec fn vnoz(a: V3) -> V3 {
    if a == zerov() {
        a
    } else {
        vnorm(a)
    }
}

/// A nearly unit vector: what `vnorm` produces on any nonzero input. Its
/// components stay within `ONE` and its squared length is at least
/// `(ONE / 2)^2`.
pub open spec fn unitish(a: V3) -> bool {
    &&& in_box(a, ONE as int)
    &&& lensq(a) >= 4194304
}

/// A dot product of box-bounded vectors is bounded.
pub proof fn lemma_dot_bound(a: V3, b: V3, ab: int, bb: int)
    requires
        in_box(a, ab),
        in_box(b, bb),
        0 <= ab,
        0 <= bb,
    ensures
        -tdiv(3 * (ab * bb), ONE as int) <= v_dot(a, b) <= tdiv(3 * (ab * bb), ONE as int),
        -(3 * (ab * bb)) <= v_dot(a, b) <= 3 * (ab * bb),
{
    lemma_mul_le(a.x, b.x, ab, bb);
    lemma_mul_le(a.y, b.y, ab, bb);
    lemma_mul_le(a.z, b.z, ab, bb);
    lemma_tdiv_bound(a.x * b.x + a.y * b.y + a.z * b.z, ONE as int, 3 * (ab * bb));
}

/// A cross product of box-bounded vectors is bounded.
pub proof fn lemma_cross_bound(a: V3, b: V3, ab: int, bb: int)
    requires
        in_box(a, ab),
        in_box(b, bb),
        0 <= ab,
        0 <= bb,
    ensures
        in_box(v_cross(a, b), tdiv(2 * (ab * bb), ONE as int)),
        in_box(v_cross(a, b), 2 * (ab * bb)),
{
    lemma_mul_le(a.y, b.z, ab, bb);
    lemma_mul_le(a.z, b.y, ab, bb);
    lemma_mul_le(a.z, b.x, ab, bb);
    lemma_mul_le(a.x, b.z, ab, bb);
    lemma_mul_le(a.x, b.y, ab, bb);
    lemma_mul_le(a.y, b.x, ab, bb);
    lemma_tdiv_bound(a.y * b.z - a.z * b.y, ONE as int, 2 * (ab * bb));
    lemma_tdiv_bound(a.z * b.x - a.x * b.z, ONE as int, 2 * (ab * bb));
    lemma_tdiv_bound(a.x * b.y - a.y * b.x, ONE as int, 2 * (ab * bb));
}

/// A scaled vector is bounded, and its components fit an `i64` when the bound
/// says so.
pub proof fn lemma_scale_bound(a: V3, k: int, ab: int, kb: int)
    requires
        in_box(a, ab),
        -kb <= k <= kb,
        0 <= ab,
        0 <= kb,
    ensures
        in_box(v_scale(a, k), tdiv(ab * kb, ONE as int)),
        in_box(v_scale(a, k), ab * kb),
{
    lemma_fmul_bound(a.x, k, ab, kb);
    lemma_fmul_bound(a.y, k, ab, kb);
    lemma_fmul_bound(a.z, k, ab, kb);
}

/// The squared length of a box-bounded vector is bounded.
pub proof fn lemma_lensq_bound(a: V3, ab: int)
    requires
        in_box(a, ab),
        0 <= ab,
    ensures
        0 <= lensq(a) <= 3 * (ab * ab),
{
    lemma_mul_le(a.x, a.x, ab, ab);
    lemma_mul_le(a.y, a.y, ab, ab);
    lemma_mul_le(a.z, a.z, ab, ab);
    assert(a.x * a.x >= 0 && a.y * a.y >= 0 && a.z * a.z >= 0) by (nonlinear_arith);
}

/// Truncating division reaches `q` as soon as the numerator reaches `q * d`.
pub proof fn lemma_tdiv_lower(n: int, d: int, q: int)
    requires
        1 <= d,
        0 <= q,
        q * d <= n,
    ensures
        tdiv(n, d) >= q,
{
    assert(0 <= q * d) by (nonlinear_arith)
        requires
            0 <= q,
            1 <= d,
    ;
    lemma_div_multiples_vanish(q, d);
    assert(q * d == d * q) by (nonlinear_arith);
    lemma_div_is_ordered(q * d, n, d);
}

/// What normalization promises on any nonzero, bounded vector: the result is
/// `vnorm` exactly, and it is nearly unit.
pub proof fn lemma_vnorm_unitish(a: V3)
    requires
        a != zerov(),
        in_box(a, 0x1000_0000_0000_0000),
    ensures
        unitish(vnorm(a)),
        1 <= vlen(a),
        in_box(a, vlen(a)),
{
    assert(lensq(a) >= 1) by (nonlinear_arith)
        requires
            !(a.x == 0 && a.y == 0 && a.z == 0),
    ;
    lemma_sqrt_exists(lensq(a));
    let len: int = vlen(a);
    assert(1 <= len) by (nonlinear_arith)
        requires
            is_sqrt(lensq(a), len),
            lensq(a) >= 1,
    ;
    // every component is bounded by the length
    assert(a.x * a.x <= lensq(a) && a.y * a.y <= lensq(a) && a.z * a.z <= lensq(a))
        by (nonlinear_arith);
    assert(-len <= a.x <= len && -len <= a.y <= len && -len <= a.z <= len)
        by (nonlinear_arith)
        requires
            a.x * a.x <= lensq(a),
            a.y * a.y <= lensq(a),
            a.z * a.z <= lensq(a),
            lensq(a) < (len + 1) * (len + 1),
            0 <= len,
    ;
    lemma_vnorm_comp(a.x, len);
    lemma_vnorm_comp(a.y, len);
    lemma_vnorm_comp(a.z, len);
    // the largest component keeps the normalized vector long
    let m: int = if a.x * a.x >= a.y * a.y && a.x * a.x >= a.z * a.z {
        a.x
    } else if a.y * a.y >= a.z * a.z {
        a.y
    } else {
        a.z
    };
    assert(lensq(a) <= 3 * (m * m));
    assert(2 * m > len || 2 * m < -len) by (nonlinear_arith)
        requires
            len * len <= 3 * (m * m),
            1 <= len,
    ;
    let am: int = if m >= 0 { m } else { -m };
    assert(2 * am > len);
    lemma_tdiv_lower(am * (ONE as int), len, 2048);
    let nm: int = fdiv(m, len);
    assert(nm >= 2048 || nm <= -2048);
    assert(nm * nm >= 4194304) by (nonlinear_arith)
        requires
            nm >= 2048 || nm <= -2048,
    ;
    let v: V3 = vnorm(a);
    assert(v.x * v.x >= 0 && v.y * v.y >= 0 && v.z * v.z >= 0) by (nonlinear_arith);
    assert(nm == v.x || nm == v.y || nm == v.z);
    assert(lensq(v) >= 4194304);
}

/// Normalization-or-zero stays within the unit box.
pub proof fn lemma_vnoz_box(v: V3)
    requires
        in_box(v, 0x1000_0000_0000_0000),
    ensures
        in_box(vnoz(v), ONE as int),
{
    if v != zerov() {
        lemma_vnorm_unitish(v);
    }
}

/// One normalized component: magnitude at most `ONE`.
proof fn lemma_vnorm_comp(c: int, len: int)
    requires
        1 <= len,
        -len <= c <= len,
    ensures
        -(ONE as int) <= fdiv(c, len) <= ONE as int,
{
    assert(-(len * (ONE as int)) <= c * (ONE as int) <= len * (ONE as int));
    lemma_tdiv_bound(c * (ONE as int), len, len * (ONE as int));
    lemma_tdiv_exact(ONE as int, len);
    assert(len * (ONE as int) == (ONE as int) * len) by (nonlinear_arith);
}

impl Vector3D {
    pub fn new(x: i64, y: i64, z: i64) -> (r: Vector3D)
        ensures
            r@ == (V3 { x: x as int, y: y as int, z: z as int }),
    {
        Vector3D { x, y, z }
    }

    /// Componentwise sum.
    pub fn add(&self, o: &Vector3D) -> (r: Vector3D)
        requires
            in_box(self@, 0x2000_0000_0000_0000),
            in_box(o@, 0x2000_0000_0000_0000),
        ensures
            r@ == v_add(self@, o@),
    {
        Vector3D { x: self.x + o.x, y: self.y + o.y, z: self.z + o.z }
    }

    /// Componentwise difference.
    pub fn sub(&self, o: &Vector3D) -> (r: Vector3D)
        requires
            in_box(self@, 0x2000_0000_0000_0000),
            in_box(o@, 0x2000_0000_0000_0000),
        ensures
            r@ == v_sub(self@, o@),
    {
        Vector3D { x: self.x - o.x, y: self.y - o.y, z: self.z - o.z }
    }

    /// Componentwise negation.
    pub fn neg(&self) -> (r: Vector3D)
        requires
            in_box(self@, 0x2000_0000_0000_0000),
        ensures
            r@ == v_neg(self@),
    {
        Vector3D { x: -self.x, y: -self.y, z: -self.z }
    }

    /// Product with a fixed-point scalar; the exact result must fit.
    pub fn scale(&self, k: i64) -> (r: Vector3D)
        requires
            -0x7fff_ffff_ffff_ffff <= fmul(self@.x, k as int) <= 0x7fff_ffff_ffff_ffff,
            -0x7fff_ffff_ffff_ffff <= fmul(self@.y, k as int) <= 0x7fff_ffff_ffff_ffff,
            -0x7fff_ffff_ffff_ffff <= fmul(self@.z, k as int) <= 0x7fff_ffff_ffff_ffff,
        ensures
            r@ == v_scale(self@, k as int),
    {
        Vector3D { x: fp_mul(self.x, k), y: fp_mul(self.y, k), z: fp_mul(self.z, k) }
    }

    /// Fixed-point dot product.
    pub fn dot(&self, o: &Vector3D) -> (r: i64)
        requires
            in_box(self@, 0x10_0000_0000),
            in_box(o@, 0x10_0000_0000),
        ensures
            r as int == v_dot(self@, o@),
    {
        proof {
            lemma_mul_le(self@.x, o@.x, 0x10_0000_0000, 0x10_0000_0000);
            lemma_mul_le(self@.y, o@.y, 0x10_0000_0000, 0x10_0000_0000);
            lemma_mul_le(self@.z, o@.z, 0x10_0000_0000, 0x10_0000_0000);
            lemma_dot_bound(self@, o@, 0x10_0000_0000, 0x10_0000_0000);
        }
        let s: i128 = (self.x as i128) * (o.x as i128) + (self.y as i128) * (o.y as i128)
            + (self.z as i128) * (o.z as i128);
        let q: i128 = crate::fixed::tdiv_i128(s, 4096);
        q as i64
    }

    /// Fixed-point cross product, right-hand rule.
    pub fn cross(&self, o: &Vector3D) -> (r: Vector3D)
        requires
            in_box(self@, 0x10_0000_0000),
            in_box(o@, 0x10_0000_0000),
        ensures
            r@ == v_cross(self@, o@),
    {
        proof {
            lemma_mul_le(self@.y, o@.z, 0x10_0000_0000, 0x10_0000_0000);
            lemma_mul_le(self@.z, o@.y, 0x10_0000_0000, 0x10_0000_0000);
            lemma_mul_le(self@.z, o@.x, 0x10_0000_0000, 0x10_0000_0000);
            lemma_mul_le(self@.x, o@.z, 0x10_0000_0000, 0x10_0000_0000);
            lemma_mul_le(self@.x, o@.y, 0x10_0000_0000, 0x10_0000_0000);
            lemma_mul_le(self@.y, o@.x, 0x10_0000_0000, 0x10_0000_0000);
            lemma_cross_bound(self@, o@, 0x10_0000_0000, 0x10_0000_0000);
        }
        let cx: i128 = (self.y as i128) * (o.z as i128) - (self.z as i128) * (o.y as i128);
        let cy: i128 = (self.z as i128) * (o.x as i128) - (self.x as i128) * (o.z as i128);
        let cz: i128 = (self.x as i128) * (o.y as i128) - (self.y as i128) * (o.x as i128);
        let rx: i128 = crate::fixed::tdiv_i128(cx, 4096);
        let ry: i128 = crate::fixed::tdiv_i128(cy, 4096);
        let rz: i128 = crate::fixed::tdiv_i128(cz, 4096);
        Vector3D { x: rx as i64, y: ry as i64, z: rz as i64 }
    }

    /// Fixed-point length.
    pub fn length(&self) -> (r: i64)
        requires
            in_box(self@, 0x1000_0000_0000_0000),
        ensures
            r as int == vlen(self@),
            is_sqrt(lensq(self@), r as int),
            0 <= r,
    {
        proof {
            lemma_lensq_bound(self@, 0x1000_0000_0000_0000);
            lemma_mul_le(self@.x, self@.x, 0x1000_0000_0000_0000, 0x1000_0000_0000_0000);
            lemma_mul_le(self@.y, self@.y, 0x1000_0000_0000_0000, 0x1000_0000_0000_0000);
            lemma_mul_le(self@.z, self@.z, 0x1000_0000_0000_0000, 0x1000_0000_0000_0000);
        }
        let s: i128 = (self.x as i128) * (self.x as i128) + (self.y as i128) * (self.y as i128)
            + (self.z as i128) * (self.z as i128);
        proof {
            assert(s >= 0);
        }
        let r: u128 = isqrt_u128(s as u128);
        proof {
            lemma_sqrt_is(s as int, r as int);
            assert(r as int <= 0x2000_0000_0000_0000) by (nonlinear_arith)
                requires
                    0 <= r as int,
                    (r as int) * (r as int) <= s as int,
                    s as int <= 3 * (0x1000_0000_0000_0000 * 0x1000_0000_0000_0000),
            ;
        }
        r as i64
    }

    /// Fixed-point normalization; the vector must be nonzero.
    pub fn normalize(&self) -> (r: Vector3D)
        requires
            in_box(self@, 0x1000_0000_0000_0000),
            self@ != zerov(),
        ensures
            r@ == vnorm(self@),
            unitish(r@),
    {
        proof {
            lemma_vnorm_unitish(self@);
            lemma_vnorm_comp(self@.x, vlen(self@));
            lemma_vnorm_comp(self@.y, vlen(self@));
            lemma_vnorm_comp(self@.z, vlen(self@));
        }
        let len: i64 = self.length();
        Vector3D { x: fp_div(self.x, len), y: fp_div(self.y, len), z: fp_div(self.z, len) }
    }

    /// Normalization extended to the zero vector, which comes back unchanged.
    pub fn normalize_or_zero(&self) -> (r: Vector3D)
        requires
            in_box(self@, 0x1000_0000_0000_0000),
        ensures
            r@ == vnoz(self@),
            in_box(r@, ONE as int),
            self@ != zerov() ==> unitish(r@),
    {
        if self.x == 0 && self.y == 0 && self.z == 0 {
            Vector3D { x: 0, y: 0, z: 0 }
        } else {
            self.normalize()
        }
    }
}

} // verus!
