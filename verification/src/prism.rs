//! The axis-aligned box, assembled from six rectangles.

use vstd::prelude::*;

use crate::aabb::Aabb;
use crate::hitable::{FlipNormals, HitRecord, Shape};
use crate::materials::Material;
use crate::plane::{Axis, Plane};
use crate::rat::{rat_wf, Rat};
use crate::ray::{ray_wf, Ray};
use crate::vec3::{vec_wf, Vec3};
use crate::world::{all_wf, brute_hit, World};

verus! {

/// The six rectangles of the box `[p0, p1]`: for each pair of axes, one
/// face at the far coordinate and one at the near coordinate turned inside
/// out, so that every normal points out of the box.
pub open spec fn spec_prism_faces(p0: Vec3, p1: Vec3, material: Material) -> Seq<Shape> {
    seq![
        Shape::Plane(
            Plane { axis: Axis::XY, r0: p0.x, r1: p1.x, s0: p0.y, s1: p1.y, k: p1.z, material },
        ),
        Shape::Flip(
            FlipNormals {
                hitable: Box::new(
                    Shape::Plane(
                        Plane {
                            axis: Axis::XY,
                            r0: p0.x,
                            r1: p1.x,
                            s0: p0.y,
                            s1: p1.y,
                            k: p0.z,
                            material,
                        },
                    ),
                ),
            },
        ),
        Shape::Plane(
            Plane { axis: Axis::XZ, r0: p0.x, r1: p1.x, s0: p0.z, s1: p1.z, k: p1.y, material },
        ),
        Shape::Flip(
            FlipNormals {
                hitable: Box::new(
                    Shape::Plane(
                        Plane {
                            axis: Axis::XZ,
                            r0: p0.x,
                            r1: p1.x,
                            s0: p0.z,
                            s1: p1.z,
                            k: p0.y,
                            material,
                        },
                    ),
                ),
            },
        ),
        Shape::Plane(
            Plane { axis: Axis::YZ, r0: p0.y, r1: p1.y, s0: p0.z, s1: p1.z, k: p1.x, material },
        ),
        Shape::Flip(
            FlipNormals {
                hitable: Box::new(
                    Shape::Plane(
                        Plane {
                            axis: Axis::YZ,
                            r0: p0.y,
                            r1: p1.y,
                            s0: p0.z,
                            s1: p1.z,
                            k: p0.x,
                            material,
                        },
                    ),
                ),
            },
        ),
    ]
}

/// A box with corners `p0` below `p1` on every axis.
pub struct Prism {
    pub p0: Vec3,
    pub p1: Vec3,
    pub material: Material,
    pub hitables: World,
}

/// Well-formed: corners in range and ordered, faces as constructed.
pub open spec fn prism_wf(pr: Prism) -> bool {
    vec_wf(pr.p0) && vec_wf(pr.p1) && pr.p0.x < pr.p1.x && pr.p0.y < pr.p1.y && pr.p0.z < pr.p1.z
        && pr.hitables.objects@ == spec_prism_faces(pr.p0, pr.p1, pr.material) && all_wf(
        pr.hitables.objects@,
    )
}

impl Prism {
    /// Assemble the box from its six faces.
    pub fn new(p0: Vec3, p1: Vec3, material: Material) -> (r: Prism)
        requires
            vec_wf(p0),
            vec_wf(p1),
            p0.x < p1.x,
            p0.y < p1.y,
            p0.z < p1.z,
        ensures
            r.p0 == p0,
            r.p1 == p1,
            r.material == material,
            prism_wf(r),
    {
        let mut hitables = World::new();
        hitables.add(Shape::Plane(Plane::from_box(Axis::XY, p0.x, p1.x, p0.y, p1.y, p1.z, material)));
        hitables.add(
            FlipNormals::of(
                Shape::Plane(Plane::from_box(Axis::XY, p0.x, p1.x, p0.y, p1.y, p0.z, material)),
            ),
        );
        hitables.add(Shape::Plane(Plane::from_box(Axis::XZ, p0.x, p1.x, p0.z, p1.z, p1.y, material)));
        hitables.add(
            FlipNormals::of(
                Shape::Plane(Plane::from_box(Axis::XZ, p0.x, p1.x, p0.z, p1.z, p0.y, material)),
            ),
        );
        hitables.add(Shape::Plane(Plane::from_box(Axis::YZ, p0.y, p1.y, p0.z, p1.z, p1.x, material)));
        hitables.add(
            FlipNormals::of(
                Shape::Plane(Plane::from_box(Axis::YZ, p0.y, p1.y, p0.z, p1.z, p0.x, material)),
            ),
        );
        let r = Prism { p0, p1, material, hitables };
        proof {
            assert(r.hitables.objects@ =~= spec_prism_faces(p0, p1, material));
            let faces = spec_prism_faces(p0, p1, material);
            assert forall|i: int| 0 <= i < faces.len() implies crate::hitable::shape_wf(
                #[trigger] faces[i],
            ) by {
                assert(faces.len() == 6);
                let near_xy = Shape::Plane(
                    Plane { axis: Axis::XY, r0: p0.x, r1: p1.x, s0: p0.y, s1: p1.y, k: p0.z, material },
                );
                let near_xz = Shape::Plane(
                    Plane { axis: Axis::XZ, r0: p0.x, r1: p1.x, s0: p0.z, s1: p1.z, k: p0.y, material },
                );
                let near_yz = Shape::Plane(
                    Plane { axis: Axis::YZ, r0: p0.y, r1: p1.y, s0: p0.z, s1: p1.z, k: p0.x, material },
                );
                if i == 0 {
                    assert(crate::hitable::shape_wf(faces[0]));
                } else if i == 1 {
                    assert(crate::hitable::shape_wf(near_xy));
                    assert(faces[1] == Shape::Flip(FlipNormals { hitable: Box::new(near_xy) }));
                    assert(crate::hitable::shape_wf(faces[1]));
                } else if i == 2 {
                    assert(crate::hitable::shape_wf(faces[2]));
                } else if i == 3 {
                    assert(crate::hitable::shape_wf(near_xz));
                    assert(faces[3] == Shape::Flip(FlipNormals { hitable: Box::new(near_xz) }));
                    assert(crate::hitable::shape_wf(faces[3]));
                } else if i == 4 {
                    assert(crate::hitable::shape_wf(faces[4]));
                } else {
                    assert(crate::hitable::shape_wf(near_yz));
                    assert(faces[5] == Shape::Flip(FlipNormals { hitable: Box::new(near_yz) }));
                    assert(crate::hitable::shape_wf(faces[5]));
                }
            }
        }
        r
    }

    /// Determine the closest hit over the six faces.
    pub fn hit(&self, ray: &Ray, position_min: &Rat, position_max: &Rat) -> (r: Option<HitRecord>)
        requires
            prism_wf(*self),
            ray_wf(*ray),
            rat_wf(*position_min),
            rat_wf(*position_max),
        ensures
            r == brute_hit(
                spec_prism_faces(self.p0, self.p1, self.material),
                *ray,
                *position_min,
                *position_max,
            ),
    {
        self.hitables.hit(ray, position_min, position_max)
    }

    /// The tight box around the prism: its two corners.
    pub fn bounding_box(&self) -> (r: Option<Aabb>)
        ensures
            r == Some(Aabb { minimum: self.p0, maximum: self.p1 }),
    {
        Some(Aabb::from(self.p0, self.p1))
    }
}

} // verus!
