//! The scene: objects, lights and global rendering parameters.

use vstd::prelude::*;

use crate::fixed::{fdiv, Fx};
use crate::objects::{geom_position, geom_same_shape, Light, Object};
use crate::vec3::{rotation, vlength, vscale, vtransform, Axis, Mat3, V3};

verus! {

/// A scene: the objects and lights to render, the colour returned by
/// rays that hit nothing, the ambient light added to every shaded
/// point, the recursion bound for traced reflections, and whether the
/// collaborator spins the objects between frames.
#[derive(Debug)]
pub struct Scene {
    pub objects: Vec<Object>,
    pub lights: Vec<Light>,
    pub background_colour: (Fx, Fx, Fx),
    pub ambient_light: (Fx, Fx, Fx),
    pub reflection_limit: u32,
    pub do_objects_spin: bool,
}

/// One spin step of an anchor point: rotate it about the world Y axis
/// by the angle whose sine and cosine are given, then rescale it to
/// its previous distance from the origin to counter drift.
pub open spec fn spin_position(p: V3, s: int, c: int) -> V3 {
    let q = vtransform(p, rotation(Axis::Y, s, c));
    vscale(q, fdiv(vlength(p), vlength(q)))
}

impl Scene {
    /// Rotate every object's anchor point about the world Y axis by
    /// the angle whose sine and cosine are given, rescaling each to
    /// its previous distance from the origin.  Everything else about
    /// the scene is unchanged.
    pub fn spin_objects(&mut self, sin_t: Fx, cos_t: Fx)
        ensures
            final(self).objects@.len() == old(self).objects@.len(),
            forall|j: int|
                0 <= j < old(self).objects@.len() ==> {
                    &&& (#[trigger] final(self).objects@[j]).name == old(self).objects@[j].name
                    &&& final(self).objects@[j].material == old(self).objects@[j].material
                    &&& geom_same_shape(
                        final(self).objects@[j].geometry,
                        old(self).objects@[j].geometry,
                    )
                    &&& geom_position(final(self).objects@[j].geometry) == spin_position(
                        geom_position(old(self).objects@[j].geometry),
                        sin_t@,
                        cos_t@,
                    )
                },
            final(self).lights == old(self).lights,
            final(self).background_colour == old(self).background_colour,
            final(self).ambient_light == old(self).ambient_light,
            final(self).reflection_limit == old(self).reflection_limit,
            final(self).do_objects_spin == old(self).do_objects_spin,
    {
        let rot = Mat3::create_rotation(Axis::Y, sin_t, cos_t);
        let n = self.objects.len();
        let mut i: usize = 0;
        while i < n
            invariant
                i <= n,
                rot@ == rotation(Axis::Y, sin_t@, cos_t@),
                n == self.objects@.len(),
                n == old(self).objects@.len(),
                forall|j: int|
                    0 <= j < i ==> {
                        &&& (#[trigger] self.objects@[j]).name == old(self).objects@[j].name
                        &&& self.objects@[j].material == old(self).objects@[j].material
                        &&& geom_same_shape(
                            self.objects@[j].geometry,
                            old(self).objects@[j].geometry,
                        )
                        &&& geom_position(self.objects@[j].geometry) == spin_position(
                            geom_position(old(self).objects@[j].geometry),
                            sin_t@,
                            cos_t@,
                        )
                    },
                forall|j: int| i <= j < n ==> self.objects@[j] == old(self).objects@[j],
                self.lights == old(self).lights,
                self.background_colour == old(self).background_colour,
                self.ambient_light == old(self).ambient_light,
                self.reflection_limit == old(self).reflection_limit,
                self.do_objects_spin == old(self).do_objects_spin,
            decreases n - i,
        {
            let position = self.objects[i].geometry.position();
            let length = position.length();
            let rotated = position.transform_point(&rot);
            let rescaled = rotated.scale(length.div(rotated.length()));
            self.objects[i].geometry.set_position(rescaled);
            proof {
                let g_old = old(self).objects@[i as int].geometry;
                let g_new = self.objects@[i as int].geometry;
                assert(g_new == crate::objects::geom_with_position(g_old, rescaled));
                assert(geom_same_shape(g_new, g_old));
                assert(geom_position(g_new) == rescaled@);
                assert(rescaled@ == spin_position(geom_position(g_old), sin_t@, cos_t@));
            }
            i = i + 1;
        }
    }
}

} // verus!
