//! Point lights: a position, a color, and a scalar intensity. No distance
//! attenuation is applied anywhere.

use vstd::prelude::*;
use crate::color::{c_in_box, Color, C3};
use crate::fixed::CMAX;
use crate::vec3::{in_box, Vector3D, V3};

verus! {

/// Mathematical model of a point light.
pub struct LightV {
    pub position: V3,
    pub color: C3,
    pub intensity: int,
}

/// A point light.
#[derive(Clone, Copy, PartialEq, Eq, Structural, Debug)]
pub struct Light {
    pub position: Vector3D,
    pub color: Color,
    pub intensity: i64,
}

impl View for Light {
    type V = LightV;

    open spec fn view(&self) -> LightV {
        LightV { position: self.position@, color: self.color@, intensity: self.intensity as int }
    }
}

/// Coordinate bounds every scene light obeys.
pub open spec fn light_wf(l: LightV) -> bool {
    &&& in_box(l.position, CMAX as int)
    &&& c_in_box(l.color, CMAX as int)
    &&& -(CMAX as int) <= l.intensity <= CMAX as int
}

impl Light {
    pub fn new(position: Vector3D, color: Color, intensity: i64) -> (l: Light)
        ensures
            l@ == (LightV {
                position: position@,
                color: color@,
                intensity: intensity as int,
            }),
    {
        Light { position, color, intensity }
    }

    /// Whether this light obeys the coordinate bounds the renderer requires.
    pub fn well_formed(&self) -> (r: bool)
        ensures
            r == light_wf(self@),
    {
        -CMAX <= self.position.x && self.position.x <= CMAX && -CMAX <= self.position.y
            && self.position.y <= CMAX && -CMAX <= self.position.z && self.position.z <= CMAX
            && -CMAX <= self.color.r && self.color.r <= CMAX && -CMAX <= self.color.g
            && self.color.g <= CMAX && -CMAX <= self.color.b && self.color.b <= CMAX && -CMAX
            <= self.intensity && self.intensity <= CMAX
    }
}

} // verus!
