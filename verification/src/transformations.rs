//! Placing geometry: translation by a fixed offset.
//!
//! Scene coordinates are exact integers, so a translated shape is simply
//! the same shape with shifted geometry; nothing needs to move the ray and
//! move the hit back. Rotation and scaling are real-valued and are the
//! caller's business.

use vstd::prelude::*;

use crate::hitable::{shape_wf, FlipNormals, Shape};
use crate::plane::{fixed_axis, in_axis1, in_axis2, Plane};
use crate::sphere::Sphere;
use crate::triangle::Triangle;
use crate::vec3::{coord_bound, vec_axis, Vec3};

verus! {

/// The sum of two coordinates, as an `i64` coordinate.
pub open spec fn shift(a: int, b: int) -> i64 {
    (a + b) as i64
}

/// A point shifted by an offset.
pub open spec fn shift_vec(v: Vec3, offset: Vec3) -> Vec3 {
    Vec3 {
        x: shift(v.x as int, offset.x as int),
        y: shift(v.y as int, offset.y as int),
        z: shift(v.z as int, offset.z as int),
    }
}

/// Whether a coordinate sum stays in range.
pub open spec fn shift_ok(a: int, b: int) -> bool {
    -coord_bound() <= a + b <= coord_bound()
}

/// Whether a shape can be shifted by the offset without leaving the
/// coordinate range.
pub open spec fn translate_ok(offset: Vec3, s: Shape) -> bool
    decreases s,
{
    match s {
        Shape::Sphere(sp) => shift_ok(sp.center.x as int, offset.x as int) && shift_ok(
            sp.center.y as int,
            offset.y as int,
        ) && shift_ok(sp.center.z as int, offset.z as int),
        Shape::Plane(p) => {
            let o1 = vec_axis(offset, in_axis1(p.axis));
            let o2 = vec_axis(offset, in_axis2(p.axis));
            let of = vec_axis(offset, fixed_axis(p.axis));
            shift_ok(p.r0 as int, o1) && shift_ok(p.r1 as int, o1) && shift_ok(p.s0 as int, o2)
                && shift_ok(p.s1 as int, o2) && shift_ok(p.k as int, of)
        },
        Shape::Triangle(t) => shift_ok(t.v0.x as int, offset.x as int) && shift_ok(
            t.v0.y as int,
            offset.y as int,
        ) && shift_ok(t.v0.z as int, offset.z as int) && shift_ok(t.v1.x as int, offset.x as int)
            && shift_ok(t.v1.y as int, offset.y as int) && shift_ok(t.v1.z as int, offset.z as int)
            && shift_ok(t.v2.x as int, offset.x as int) && shift_ok(t.v2.y as int, offset.y as int)
            && shift_ok(t.v2.z as int, offset.z as int),
        Shape::Flip(f) => translate_ok(offset, *f.hitable),
    }
}

/// The shape with its geometry shifted by the offset: a sphere's center, a
/// rectangle's extents and plane offset, a triangle's vertices. Normals
/// are directions and do not move.
pub open spec fn spec_translate(offset: Vec3, s: Shape) -> Shape
    decreases s,
{
    match s {
        Shape::Sphere(sp) => Shape::Sphere(
            Sphere { center: shift_vec(sp.center, offset), ..sp },
        ),
        Shape::Plane(p) => {
            let o1 = vec_axis(offset, in_axis1(p.axis));
            let o2 = vec_axis(offset, in_axis2(p.axis));
            let of = vec_axis(offset, fixed_axis(p.axis));
            Shape::Plane(
                Plane {
                    r0: shift(p.r0 as int, o1),
                    r1: shift(p.r1 as int, o1),
                    s0: shift(p.s0 as int, o2),
                    s1: shift(p.s1 as int, o2),
                    k: shift(p.k as int, of),
                    ..p
                },
            )
        },
        Shape::Triangle(t) => Shape::Triangle(
            Triangle {
                v0: shift_vec(t.v0, offset),
                v1: shift_vec(t.v1, offset),
                v2: shift_vec(t.v2, offset),
                ..t
            },
        ),
        Shape::Flip(f) => Shape::Flip(
            FlipNormals { hitable: Box::new(spec_translate(offset, *f.hitable)) },
        ),
    }
}

/// A shape moved somewhere else in the scene.
pub struct Translate {}

impl Translate {
    /// Shift a shape's geometry by the offset; the result is again a
    /// well-formed shape of the scene.
    pub fn new(offset: Vec3, hitable: Shape) -> (r: Shape)
        requires
            crate::vec3::vec_wf(offset),
            shape_wf(hitable),
            translate_ok(offset, hitable),
        ensures
            r == spec_translate(offset, hitable),
            shape_wf(r),
        decreases hitable,
    {
        match hitable {
            Shape::Sphere(sp) => Shape::Sphere(
                Sphere {
                    center: Vec3 {
                        x: sp.center.x + offset.x,
                        y: sp.center.y + offset.y,
                        z: sp.center.z + offset.z,
                    },
                    ..sp
                },
            ),
            Shape::Plane(p) => {
                let (a1, a2, f): (usize, usize, usize) = match p.axis {
                    crate::plane::Axis::XY => (0, 1, 2),
                    crate::plane::Axis::YZ => (1, 2, 0),
                    crate::plane::Axis::XZ => (0, 2, 1),
                };
                let o1: i64 = offset.get(a1);
                let o2: i64 = offset.get(a2);
                let of: i64 = offset.get(f);
                Shape::Plane(
                    Plane {
                        r0: p.r0 + o1,
                        r1: p.r1 + o1,
                        s0: p.s0 + o2,
                        s1: p.s1 + o2,
                        k: p.k + of,
                        ..p
                    },
                )
            },
            Shape::Triangle(t) => Shape::Triangle(
                Triangle {
                    v0: t.v0.add(&offset),
                    v1: t.v1.add(&offset),
                    v2: t.v2.add(&offset),
                    ..t
                },
            ),
            Shape::Flip(f) => Shape::Flip(
                FlipNormals { hitable: Box::new(Self::new(offset, *f.hitable)) },
            ),
        }
    }
}

} // verus!
