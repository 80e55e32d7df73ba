//! Rays and the surface-offset helper.

use vstd::prelude::*;

use crate::rat::{lemma_abs_mul_bound, rat_bound, rat_wf, Rat};
use crate::vec3::{coord_bound, point_wf, vec_wf, RatPoint, Vec3};

verus! {

/// A ray `origin + t * direction` with a time tag for moving geometry.
///
/// The direction is kept exactly as given, unnormalized: every test in this
/// crate is exact in the ray parameter, which is invariant under the scale of
/// the direction, so no square root is ever needed.
#[derive(Clone, Copy, PartialEq, Eq, Structural, Debug)]
pub struct Ray {
    pub origin: Vec3,
    pub direction: Vec3,
    pub time: i64,
}

/// Well-formed: bounded components and a direction that is not zero.
pub open spec fn ray_wf(r: Ray) -> bool {
    vec_wf(r.origin) && vec_wf(r.direction) && !(r.direction.x == 0 && r.direction.y == 0
        && r.direction.z == 0)
}

/// The exact point `origin + t * direction` as a rational triple.
pub open spec fn spec_point_at(ray: Ray, t: Rat) -> RatPoint {
    RatPoint {
        x: (ray.origin.x * t.den + t.num * ray.direction.x) as i128,
        y: (ray.origin.y * t.den + t.num * ray.direction.y) as i128,
        z: (ray.origin.z * t.den + t.num * ray.direction.z) as i128,
        den: t.den,
    }
}

impl Ray {
    /// Create a new Ray with the given origin, direction and time.
    pub fn new(origin: Vec3, direction: Vec3, time: i64) -> (r: Ray)
        requires
            vec_wf(origin),
            vec_wf(direction),
            !(direction.x == 0 && direction.y == 0 && direction.z == 0),
        ensures
            r == (Ray { origin, direction, time }),
            ray_wf(r),
    {
        Ray { origin, direction, time }
    }

    /// The exact point on the ray at the given rational parameter.
    pub fn point_at_parameter(&self, parameter: &Rat) -> (p: RatPoint)
        requires
            ray_wf(*self),
            rat_wf(*parameter),
        ensures
            p == spec_point_at(*self, *parameter),
            point_wf(p),
    {
        proof {
            lemma_abs_mul_bound(self.origin.x as int, parameter.den as int, coord_bound(), rat_bound());
            lemma_abs_mul_bound(self.origin.y as int, parameter.den as int, coord_bound(), rat_bound());
            lemma_abs_mul_bound(self.origin.z as int, parameter.den as int, coord_bound(), rat_bound());
            lemma_abs_mul_bound(parameter.num as int, self.direction.x as int, rat_bound(), coord_bound());
            lemma_abs_mul_bound(parameter.num as int, self.direction.y as int, rat_bound(), coord_bound());
            lemma_abs_mul_bound(parameter.num as int, self.direction.z as int, rat_bound(), coord_bound());
        }
        RatPoint {
            x: (self.origin.x as i128) * parameter.den + parameter.num * (self.direction.x as i128),
            y: (self.origin.y as i128) * parameter.den + parameter.num * (self.direction.y as i128),
            z: (self.origin.z as i128) * parameter.den + parameter.num * (self.direction.z as i128),
            den: parameter.den,
        }
    }
}

/// One component of the offset-ray origin, on the integer side.
///
/// To nudge a ray origin off a surface whose geometric and shading normals
/// disagree, the hit point is moved by a small integer step applied directly
/// to the bit pattern of each coordinate, toward the geometric normal: the
/// step is added where the coordinate is non-negative and subtracted where it
/// is negative. This function is that integer step, exactly: a wrapping
/// 32-bit add or subtract of `offset` on `bits`.
pub fn offset_bits(bits: u32, offset: u32, negative: bool) -> (r: u32)
    ensures
        !negative ==> r == (bits + offset) % 0x1_0000_0000,
        negative ==> r == (bits + 0x1_0000_0000 - offset) % 0x1_0000_0000,
{
    if negative {
        (((bits as u64) + 0x1_0000_0000u64 - (offset as u64)) % 0x1_0000_0000u64) as u32
    } else {
        (((bits as u64) + (offset as u64)) % 0x1_0000_0000u64) as u32
    }
}

} // verus!
