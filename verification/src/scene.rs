//! Scenes: insertion-ordered primitives and lights, a pure data container.
//! Order carries no meaning beyond tie-breaking in the nearest-hit scan.

use vstd::prelude::*;
use crate::light::{light_wf, Light, LightV};
use crate::objects::{obj_wf, Object, ObjV};

verus! {

/// Most lights a well-formed scene may hold: keeps the shading accumulator
/// inside `i64` range.
pub const MAX_LIGHTS: usize = 65536;

/// Mathematical model of a scene.
pub struct SceneV {
    pub objects: Seq<ObjV>,
    pub lights: Seq<LightV>,
}

/// A scene: the primitives and lights it owns, in insertion order.
pub struct Scene {
    pub objects: Vec<Object>,
    pub lights: Vec<Light>,
}

impl View for Scene {
    type V = SceneV;

    open spec fn view(&self) -> SceneV {
        SceneV {
            objects: self.objects@.map_values(|o: Object| o@),
            lights: self.lights@.map_values(|l: Light| l@),
        }
    }
}

/// Every primitive and light obeys its coordinate bounds, and the lights are
/// few enough that shading sums fit.
pub open spec fn scene_wf(s: SceneV) -> bool {
    &&& forall|i: int| 0 <= i < s.objects.len() ==> obj_wf(#[trigger] s.objects[i])
    &&& forall|i: int| 0 <= i < s.lights.len() ==> light_wf(#[trigger] s.lights[i])
    &&& s.lights.len() <= MAX_LIGHTS
}

impl Scene {
    /// An empty scene.
    pub fn new() -> (s: Scene)
        ensures
            s@.objects.len() == 0,
            s@.lights.len() == 0,
            scene_wf(s@),
    {
        let s = Scene { objects: Vec::new(), lights: Vec::new() };
        proof {
            assert(s@.objects =~= Seq::<ObjV>::empty());
            assert(s@.lights =~= Seq::<LightV>::empty());
        }
        s
    }

    /// Appends a primitive; everything else is unchanged.
    pub fn add_object(&mut self, object: Object)
        ensures
            final(self)@.objects == old(self)@.objects.push(object@),
            final(self)@.lights == old(self)@.lights,
    {
        self.objects.push(object);
        proof {
            assert(self@.objects =~= old(self)@.objects.push(object@));
            assert(self@.lights =~= old(self)@.lights);
        }
    }

    /// Appends a light; everything else is unchanged.
    pub fn add_light(&mut self, light: Light)
        ensures
            final(self)@.lights == old(self)@.lights.push(light@),
            final(self)@.objects == old(self)@.objects,
    {
        self.lights.push(light);
        proof {
            assert(self@.lights =~= old(self)@.lights.push(light@));
            assert(self@.objects =~= old(self)@.objects);
        }
    }

    /// Whether every primitive and light obeys the coordinate bounds the
    /// renderer requires.
    pub fn well_formed(&self) -> (r: bool)
        ensures
            r == scene_wf(self@),
    {
        if self.lights.len() > MAX_LIGHTS {
            return false;
        }
        let mut i: usize = 0;
        while i < self.objects.len()
            invariant
                i <= self.objects.len(),
                self.lights@.len() <= MAX_LIGHTS,
                forall|j: int| 0 <= j < i ==> obj_wf(#[trigger] self@.objects[j]),
            decreases self.objects.len() - i,
        {
            if !self.objects[i].well_formed() {
                proof {
                    assert(!obj_wf(self@.objects[i as int]));
                }
                return false;
            }
            i = i + 1;
        }
        let mut k: usize = 0;
        while k < self.lights.len()
            invariant
                k <= self.lights.len(),
                self.lights@.len() <= MAX_LIGHTS,
                forall|j: int| 0 <= j < self@.objects.len() ==> obj_wf(#[trigger] self@.objects[j]),
                forall|j: int| 0 <= j < k ==> light_wf(#[trigger] self@.lights[j]),
            decreases self.lights.len() - k,
        {
            if !self.lights[k].well_formed() {
                proof {
                    assert(!light_wf(self@.lights[k as int]));
                }
                return false;
            }
            k = k + 1;
        }
        true
    }
}

} // verus!
