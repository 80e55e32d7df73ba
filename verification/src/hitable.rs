//! Hit records and the closed set of hitable shapes.

use vstd::prelude::*;

use crate::aabb::{aabb_wf, slab_hit, Aabb};
use crate::materials::Material;
use crate::plane::{plane_hit_spec, plane_wf, spec_plane_bounding_box, Plane};
use crate::rat::{rat_le, rat_wf, Rat};
use crate::ray::{ray_wf, Ray};
use crate::sphere::{sphere_hit_spec, sphere_wf, spec_sphere_bounding_box, Sphere};
use crate::triangle::{spec_triangle_bounding_box, triangle_hit_spec, triangle_wf, Triangle};
use crate::vec3::{dir_wf, point_wf, Dir3, RatPoint};

verus! {

/// What a successful ray-shape intersection carries: the exact ray
/// parameter, the surface parametrization, the hit point, the flat and the
/// interpolated surface normals, and the material at the hit point.
#[derive(Clone, Copy, PartialEq, Eq, Structural, Debug)]
pub struct HitRecord {
    pub parameter: Rat,
    pub u: Rat,
    pub v: Rat,
    pub point: RatPoint,
    pub geometric_normal: Dir3,
    pub shading_normal: Dir3,
    pub material: Material,
}

/// Well-formed: every rational part in range for exact comparison.
pub open spec fn hit_wf(h: HitRecord) -> bool {
    rat_wf(h.parameter) && rat_wf(h.u) && rat_wf(h.v) && point_wf(h.point) && dir_wf(
        h.geometric_normal,
    ) && dir_wf(h.shading_normal)
}

impl HitRecord {
    /// Create a new HitRecord for a given ray-geometry intersection.
    pub fn new(
        parameter: Rat,
        u: Rat,
        v: Rat,
        point: RatPoint,
        geometric_normal: Dir3,
        shading_normal: Dir3,
        material: Material,
    ) -> (r: HitRecord)
        ensures
            r == (HitRecord { parameter, u, v, point, geometric_normal, shading_normal, material }),
    {
        HitRecord { parameter, u, v, point, geometric_normal, shading_normal, material }
    }
}

/// The closed set of shapes the renderer knows.
#[derive(Debug)]
pub enum Shape {
    Sphere(Sphere),
    Plane(Plane),
    Triangle(Triangle),
    Flip(FlipNormals),
}

/// A wrapper that turns the wrapped shape inside out: hits are those of the
/// wrapped shape with both normals negated.
#[derive(Debug)]
pub struct FlipNormals {
    pub hitable: Box<Shape>,
}

impl FlipNormals {
    /// Wrap a shape so that its normals point the other way.
    pub fn of(hitable: Shape) -> (r: Shape)
        ensures
            r == Shape::Flip(FlipNormals { hitable: Box::new(hitable) }),
    {
        Shape::Flip(FlipNormals { hitable: Box::new(hitable) })
    }
}

/// Well-formed shapes: geometry in range, recursively.
pub open spec fn shape_wf(s: Shape) -> bool
    decreases s,
{
    match s {
        Shape::Sphere(sp) => sphere_wf(sp),
        Shape::Plane(p) => plane_wf(p),
        Shape::Triangle(t) => triangle_wf(t),
        Shape::Flip(f) => shape_wf(*f.hitable),
    }
}

/// The bounding box of a shape.
pub open spec fn spec_bounding_box(s: Shape) -> Aabb
    decreases s,
{
    match s {
        Shape::Sphere(sp) => spec_sphere_bounding_box(sp),
        Shape::Plane(p) => spec_plane_bounding_box(p),
        Shape::Triangle(t) => spec_triangle_bounding_box(t),
        Shape::Flip(f) => spec_bounding_box(*f.hitable),
    }
}

/// A hit with both normals negated.
pub open spec fn flip_record(h: HitRecord) -> HitRecord {
    HitRecord {
        geometric_normal: Dir3 {
            x: -h.geometric_normal.x as i128,
            y: -h.geometric_normal.y as i128,
            z: -h.geometric_normal.z as i128,
        },
        shading_normal: Dir3 {
            x: -h.shading_normal.x as i128,
            y: -h.shading_normal.y as i128,
            z: -h.shading_normal.z as i128,
        },
        ..h
    }
}

/// What hitting a shape returns.
///
/// Every shape first tests the ray against its own bounding box with the
/// exact slab test and reports a miss when the box is missed; this is what
/// lets a spatial index prune by a box that contains the shape's box.
pub open spec fn spec_hit(s: Shape, ray: Ray, t_min: Rat, t_max: Rat) -> Option<HitRecord>
    decreases s,
{
    if !slab_hit(spec_bounding_box(s), ray.origin, ray.direction, t_min, t_max) {
        None
    } else {
        match s {
            Shape::Sphere(sp) => sphere_hit_spec(sp, ray, t_min, t_max),
            Shape::Plane(p) => plane_hit_spec(p, ray, t_min, t_max),
            Shape::Triangle(t) => triangle_hit_spec(t, ray, t_min, t_max),
            Shape::Flip(f) => match spec_hit(*f.hitable, ray, t_min, t_max) {
                Some(h) => Some(flip_record(h)),
                None => None,
            },
        }
    }
}

impl Shape {
    /// The bounding box of this shape.
    pub fn bounding_box(&self) -> (r: Aabb)
        requires
            shape_wf(*self),
        ensures
            r == spec_bounding_box(*self),
            aabb_wf(r),
        decreases *self,
    {
        proof {
            lemma_shape_box_wf(*self);
        }
        match self {
            Shape::Sphere(sp) => sp.bounding_box(),
            Shape::Plane(p) => p.bounding_box(),
            Shape::Triangle(t) => t.bounding_box(),
            Shape::Flip(f) => f.hitable.bounding_box(),
        }
    }

    /// Determine whether the ray hits this shape within the given parameter
    /// window, after the exact slab test against the shape's own box.
    pub fn hit(&self, ray: &Ray, position_min: &Rat, position_max: &Rat) -> (r: Option<HitRecord>)
        requires
            shape_wf(*self),
            ray_wf(*ray),
            rat_wf(*position_min),
            rat_wf(*position_max),
        ensures
            r == spec_hit(*self, *ray, *position_min, *position_max),
        decreases *self,
    {
        let bbox = self.bounding_box();
        if !bbox.hit(ray, position_min, position_max) {
            return None;
        }
        match self {
            Shape::Sphere(sp) => sp.hit(ray, position_min, position_max),
            Shape::Plane(p) => p.hit(ray, position_min, position_max),
            Shape::Triangle(t) => t.hit(ray, position_min, position_max),
            Shape::Flip(f) => match f.hitable.hit(ray, position_min, position_max) {
                Some(h) => {
                    proof {
                        lemma_spec_hit_props(*f.hitable, *ray, *position_min, *position_max);
                    }
                    Some(
                        HitRecord {
                            geometric_normal: h.geometric_normal.neg(),
                            shading_normal: h.shading_normal.neg(),
                            ..h
                        },
                    )
                },
                None => None,
            },
        }
    }
}

/// A well-formed shape has a well-formed bounding box.
pub proof fn lemma_shape_box_wf(s: Shape)
    requires
        shape_wf(s),
    ensures
        aabb_wf(spec_bounding_box(s)),
    decreases s,
{
    match s {
        Shape::Flip(f) => lemma_shape_box_wf(*f.hitable),
        _ => (),
    }
}

/// What a hit promises: a well-formed record whose parameter lies within
/// the query window, and no hit at all when the shape's box is missed.
pub proof fn lemma_spec_hit_props(s: Shape, ray: Ray, t_min: Rat, t_max: Rat)
    requires
        shape_wf(s),
        ray_wf(ray),
        rat_wf(t_min),
        rat_wf(t_max),
    ensures
        spec_hit(s, ray, t_min, t_max) matches Some(h) ==> hit_wf(h) && rat_le(t_min, h.parameter)
            && rat_le(h.parameter, t_max),
        !slab_hit(spec_bounding_box(s), ray.origin, ray.direction, t_min, t_max) ==> spec_hit(
            s,
            ray,
            t_min,
            t_max,
        ) is None,
    decreases s,
{
    match s {
        Shape::Sphere(sp) => crate::sphere::lemma_sphere_hit_props(sp, ray, t_min, t_max),
        Shape::Plane(p) => crate::plane::lemma_plane_hit_props(p, ray, t_min, t_max),
        Shape::Triangle(t) => crate::triangle::lemma_triangle_hit_props(t, ray, t_min, t_max),
        Shape::Flip(f) => lemma_spec_hit_props(*f.hitable, ray, t_min, t_max),
    }
}

} // verus!
