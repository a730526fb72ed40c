//! Rays: an origin and a direction.

use vstd::prelude::*;

use crate::vec3::Vec3;

verus! {

/// A ray from `origin` along `direction`.  The direction is expected,
/// but not enforced, to be of unit length; the intersection math
/// assumes it.
#[derive(Clone, Copy, Debug)]
pub struct Ray {
    pub origin: Vec3,
    pub direction: Vec3,
}

} // verus!
