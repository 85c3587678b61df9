//! The light marker model: a small cube a scene draws at the light's
//! position.

use vstd::prelude::*;
use crate::mesh::MFrustum;
use crate::shader::IShader;

verus! {

/// A cube mesh standing where the light source is.
pub struct ModelLight {
    /// The marker mesh.
    pub cube: MFrustum,
}

impl ModelLight {
    /// A fresh marker: the unit cube.
    pub fn new() -> (r: ModelLight)
        ensures
            r.cube.prim_count() == 12,
    {
        ModelLight { cube: MFrustum::new_cube() }
    }
}

} // verus!
