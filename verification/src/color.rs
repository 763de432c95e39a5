//! RGB colors over fixed-point scalars. Channels are unconstrained while
//! accumulating light; clamping to a displayable range happens only at output
//! encoding time, outside this library.

use vstd::prelude::*;
use crate::fixed::{fmul, fp_mul};

verus! {

/// Mathematical model of a color: unbounded integer channels.
pub struct C3 {
    pub r: int,
    pub g: int,
    pub b: int,
}

/// A color of three fixed-point channels (`ONE` stands for full intensity).
#[derive(Clone, Copy, PartialEq, Eq, Structural, Debug)]
pub struct Color {
    pub r: i64,
    pub g: i64,
    pub b: i64,
}

impl View for Color {
    type V = C3;

    open spec fn view(&self) -> C3 {
        C3 { r: self.r as int, g: self.g as int, b: self.b as int }
    }
}

/// The background color.
pub open spec fn black() -> C3 {
    C3 { r: 0, g: 0, b: 0 }
}

pub open spec fn c_add(a: C3, b: C3) -> C3 {
    C3 { r: a.r + b.r, g: a.g + b.g, b: a.b + b.b }
}

/// Channelwise product with a fixed-point scalar.
pub open spec fn c_scale(a: C3, k: int) -> C3 {
    C3 { r: fmul(a.r, k), g: fmul(a.g, k), b: fmul(a.b, k) }
}

/// Every channel of `c` has magnitude at most `b`.
pub open spec fn c_in_box(c: C3, b: int) -> bool {
    &&& -b <= c.r <= b
    &&& -b <= c.g <= b
    &&& -b <= c.b <= b
}

impl Color {
    pub fn new(r: i64, g: i64, b: i64) -> (c: Color)
        ensures
            c@ == (C3 { r: r as int, g: g as int, b: b as int }),
    {
        Color { r, g, b }
    }

    /// Channelwise sum.
    pub fn add(&self, o: &Color) -> (c: Color)
        requires
            c_in_box(self@, 0x2000_0000_0000_0000),
            c_in_box(o@, 0x2000_0000_0000_0000),
        ensures
            c@ == c_add(self@, o@),
    {
        Color { r: self.r + o.r, g: self.g + o.g, b: self.b + o.b }
    }

    /// Channelwise product with a fixed-point scalar; the exact result must
    /// fit.
    pub fn scale(&self, k: i64) -> (c: Color)
        requires
            -0x7fff_ffff_ffff_ffff <= fmul(self@.r, k as int) <= 0x7fff_ffff_ffff_ffff,
            -0x7fff_ffff_ffff_ffff <= fmul(self@.g, k as int) <= 0x7fff_ffff_ffff_ffff,
            -0x7fff_ffff_ffff_ffff <= fmul(self@.b, k as int) <= 0x7fff_ffff_ffff_ffff,
        ensures
            c@ == c_scale(self@, k as int),
    {
        Color { r: fp_mul(self.r, k), g: fp_mul(self.g, k), b: fp_mul(self.b, k) }
    }
}

} // verus!
