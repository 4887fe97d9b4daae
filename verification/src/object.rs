//! Scene objects: a named, positioned, rotated, scaled instance that
//! references a merged mesh and a material.
//!
//! The transform is kept as plain decimal components — a position, an
//! orientation as Euler angles, a scale — which the rendering back-end
//! turns into a model matrix. An orientation built from Euler angles is
//! always a valid rotation, so the transform can never shear.

use vstd::prelude::*;

use crate::decimal::DecVec3;
use crate::decimal::Decimal;
use crate::material::Material;
use crate::model::ObjModel;

verus! {

/// A scene object.
pub struct RatObject {
    /// Unique handle used by console commands.
    pub name: String,
    /// The object's merged mesh.
    pub model: ObjModel,
    /// The object's material.
    pub material: Material,
    /// World-space position.
    pub position: DecVec3,
    /// Orientation as Euler angles, in the unit the back-end expects.
    pub rotation: DecVec3,
    /// Per-axis scale.
    pub scale: DecVec3,
    /// The object's weight, as its description file gives it.
    pub weight: Decimal,
}

impl RatObject {
    /// Assemble a freshly loaded object: at the origin, unrotated, unit
    /// scale.
    pub fn assemble(name: String, model: ObjModel, material: Material, weight: Decimal) -> (r:
        RatObject)
        ensures
            r.name == name,
            r.model == model,
            r.material == material,
            r.weight == weight,
            r.position == (DecVec3 {
                x: Decimal { neg: false, mantissa: 0u64, scale: 0u32 },
                y: Decimal { neg: false, mantissa: 0u64, scale: 0u32 },
                z: Decimal { neg: false, mantissa: 0u64, scale: 0u32 },
            }),
            r.rotation == r.position,
            r.scale == (DecVec3 {
                x: Decimal { neg: false, mantissa: 1u64, scale: 0u32 },
                y: Decimal { neg: false, mantissa: 1u64, scale: 0u32 },
                z: Decimal { neg: false, mantissa: 1u64, scale: 0u32 },
            }),
    {
        RatObject {
            name,
            model,
            material,
            position: DecVec3::zero(),
            rotation: DecVec3::zero(),
            scale: DecVec3::one(),
            weight,
        }
    }
}

} // verus!
