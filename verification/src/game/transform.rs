//! Where an actor is.

use vstd::prelude::*;
use crate::vector::{Vec3, Vector, UNIT};

verus! {

/// Where an actor is and which way it faces.
#[derive(Clone, Copy, Debug, PartialEq, Eq, Structural)]
pub struct Transform {
    pub translation: Vec3,
    /// The direction that the actor faces, in millionths.
    pub forward: Vec3,
}

impl Transform {
    /// The transform of an actor that stands at `translation` and has not
    /// turned yet: it faces along the negative z axis.
    pub open spec fn at(translation: Vec3) -> Transform {
        Transform { translation, forward: (Vector { x: 0, y: 0, z: -UNIT }).stored() }
    }

    pub fn from_translation(translation: Vec3) -> (t: Transform)
        ensures
            t == Transform::at(translation),
    {
        Transform { translation, forward: Vec3 { x: 0, y: 0, z: -UNIT } }
    }
}

} // verus!
