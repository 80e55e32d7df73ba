//! Materials, as far as their behaviour is exact.
//!
//! Emission and the decision whether a material scatters at all are exact
//! and live here. The sampled scatter direction and attenuation of surface
//! models are real-valued; such a material carries a handle that the caller
//! resolves to its own scatter model.

use vstd::prelude::*;

use crate::hitable::HitRecord;
use crate::ray::{ray_wf, Ray};
use crate::vec3::{dir_wf, Dir3, Vec3};

verus! {

/// The material of nothing: absorbs every ray outright.
#[derive(Clone, Copy, PartialEq, Eq, Structural, Debug)]
pub struct Empty {}

impl Empty {
    /// Create the empty material.
    pub fn new() -> (r: Empty)
        ensures
            r == (Empty {  }),
    {
        Empty {  }
    }
}

/// A diffuse light: emits a constant color and never scatters.
#[derive(Clone, Copy, PartialEq, Eq, Structural, Debug)]
pub struct Light {
    pub emit: Vec3,
}

impl Light {
    /// Create a new light that emits the given fixed-point color.
    pub fn new(emit: Vec3) -> (r: Light)
        ensures
            r == (Light { emit }),
    {
        Light { emit }
    }
}

/// A material: either exact (empty, light) or a handle to a surface
/// scatter model that the caller evaluates.
#[derive(Clone, Copy, PartialEq, Eq, Structural, Debug)]
pub enum Material {
    Empty(Empty),
    Light(Light),
    Surface(u32),
}

/// The scatter decision: emitters and the empty material absorb; a surface
/// model scatters, and which one is told by its handle.
pub open spec fn spec_scatter(m: Material) -> Option<u32> {
    match m {
        Material::Surface(id) => Some(id),
        _ => None,
    }
}

/// What a material emits toward a ray arriving along `direction` at a hit
/// with the given shading normal: lights emit their color on the side the
/// normal faces away from the ray, and everything else is black.
pub open spec fn spec_emitted(m: Material, direction: Vec3, normal: Dir3) -> Vec3 {
    match m {
        Material::Light(l) => {
            if normal.x * direction.x + normal.y * direction.y + normal.z * direction.z < 0 {
                l.emit
            } else {
                Vec3 { x: 0i64, y: 0i64, z: 0i64 }
            }
        },
        _ => Vec3 { x: 0i64, y: 0i64, z: 0i64 },
    }
}

impl Material {
    /// Decide whether this material scatters; an emitter or the empty
    /// material returns `None`, a surface model returns its handle.
    pub fn scatter(&self) -> (r: Option<u32>)
        ensures
            r == spec_scatter(*self),
    {
        match self {
            Material::Surface(id) => Some(*id),
            _ => None,
        }
    }

    /// The color this material adds at a hit: non-zero only for a light
    /// seen from the side its shading normal faces away from.
    pub fn emitted(&self, ray: &Ray, hit: &HitRecord) -> (r: Vec3)
        requires
            ray_wf(*ray),
            dir_wf(hit.shading_normal),
        ensures
            r == spec_emitted(*self, ray.direction, hit.shading_normal),
    {
        match self {
            Material::Light(l) => {
                let d: i128 = hit.shading_normal.dot_vec(&ray.direction);
                if d < 0 {
                    l.emit
                } else {
                    Vec3::zero()
                }
            },
            _ => Vec3::zero(),
        }
    }
}

/// An emitter never scatters, and emits its color exactly on hits whose
/// shading normal opposes the arriving ray; the far side is black.
pub proof fn lemma_light_emits_one_sided(l: Light, direction: Vec3, normal: Dir3)
    ensures
        spec_scatter(Material::Light(l)) is None,
        normal.x * direction.x + normal.y * direction.y + normal.z * direction.z < 0
            ==> spec_emitted(Material::Light(l), direction, normal) == l.emit,
        normal.x * direction.x + normal.y * direction.y + normal.z * direction.z >= 0
            ==> spec_emitted(Material::Light(l), direction, normal) == (Vec3 {
            x: 0i64,
            y: 0i64,
            z: 0i64,
        }),
{
}

} // verus!
