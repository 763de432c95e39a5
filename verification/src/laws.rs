//! Global laws of the library, each proved from the public contracts: what
//! normalization does to unit vectors, how rays trace lines, that rendering
//! is deterministic, and that a miss paints the background.

use vstd::prelude::*;
use crate::camera::CameraV;
use crate::color::black;
use crate::fixed::{lemma_tdiv_exact, lemma_tdiv_rem, ONE};
use crate::ray::{ray_at, RayV};
use crate::renderer::{nearest_hit, render_ok, trace_color};
use crate::scene::SceneV;
use crate::vec3::{in_box, vlen, vnorm, V3};

verus! {

/// A unit vector is already normalized: on any vector whose fixed-point
/// length is exactly `ONE`, normalization returns the vector unchanged, so
/// the length of the normalized vector is exactly `ONE` as well.
pub proof fn lemma_normalize_unit_keeps_length(a: V3)
    requires
        in_box(a, 0x1000_0000_0000_0000),
        vlen(a) == ONE as int,
    ensures
        vnorm(a) == a,
        vlen(vnorm(a)) == ONE as int,
{
    lemma_tdiv_exact(a.x, ONE as int);
    lemma_tdiv_exact(a.y, ONE as int);
    lemma_tdiv_exact(a.z, ONE as int);
}

/// A ray evaluated at parameter zero is its own origin.
pub proof fn lemma_ray_at_zero(r: RayV)
    ensures
        ray_at(r, 0) == r.origin,
{
    assert(r.dir.x * 0 == 0 && r.dir.y * 0 == 0 && r.dir.z * 0 == 0);
    lemma_tdiv_exact(0, ONE as int);
}

/// For every parameter, the evaluated point lies on the line through the
/// origin along the direction: each coordinate, rescaled, is within one
/// fixed-point quantum of the exact line coordinate.
pub proof fn lemma_ray_at_on_line(r: RayV, t: int)
    ensures
        -(ONE as int) < r.dir.x * t - (ONE as int) * (ray_at(r, t).x - r.origin.x) < ONE as int,
        -(ONE as int) < r.dir.y * t - (ONE as int) * (ray_at(r, t).y - r.origin.y) < ONE as int,
        -(ONE as int) < r.dir.z * t - (ONE as int) * (ray_at(r, t).z - r.origin.z) < ONE as int,
{
    lemma_tdiv_rem(r.dir.x * t, ONE as int);
    lemma_tdiv_rem(r.dir.y * t, ONE as int);
    lemma_tdiv_rem(r.dir.z * t, ONE as int);
}

/// Rendering is deterministic: two buffers that both satisfy the renderer's
/// contract for the same scene, camera and resolution are equal, bit for bit.
pub proof fn lemma_render_deterministic(
    b1: Seq<crate::color::Color>,
    b2: Seq<crate::color::Color>,
    s: SceneV,
    c: CameraV,
    w: int,
    h: int,
)
    requires
        render_ok(b1, s, c, w, h),
        render_ok(b2, s, c, w, h),
    ensures
        b1 == b2,
{
    assert forall|i: int| 0 <= i < b1.len() implies b1[i] == b2[i] by {
        assert(b1[i]@ == b2[i]@);
    }
    assert(b1 =~= b2);
}

/// A ray that misses every primitive yields exactly the background color.
pub proof fn lemma_miss_is_black(s: SceneV, r: RayV)
    requires
        nearest_hit(s, r) is None,
    ensures
        trace_color(s, r) == black(),
{
}

} // verus!
