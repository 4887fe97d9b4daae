//! Materials: a compiled shading program paired with a bound texture.
//!
//! A texture handle of zero means "untextured": activating the material
//! must then bind nothing.

use vstd::prelude::*;

use crate::shader::RatShader;

verus! {

/// The pairing of a compiled program and a texture handle.
pub struct Material {
    pub name: String,
    pub shader: RatShader,
    pub texture_id: u32,
}

impl Material {
    /// The texture to bind to texture unit 0 when activating this
    /// material, or nothing when the material is untextured.
    pub fn texture_binding(&self) -> (r: Option<u32>)
        ensures
            r == (if self.texture_id != 0 {
                Some(self.texture_id)
            } else {
                None::<u32>
            }),
    {
        if self.texture_id != 0 {
            Some(self.texture_id)
        } else {
            None
        }
    }
}

} // verus!
