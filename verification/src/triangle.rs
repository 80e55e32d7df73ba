//! Triangles, intersected by the Moller-Trumbore barycentric method.

use vstd::prelude::*;

use crate::aabb::{mk_rat, Aabb};
use crate::hitable::{hit_wf, HitRecord, Shape};
use crate::materials::Material;
use crate::rat::{lemma_abs_mul_bound, rat_le, rat_lt, rat_wf, Rat};
use crate::ray::{ray_wf, spec_point_at, Ray};
use crate::vec3::{coord_bound, cross128, dot_dir, imax, imin, vec_wf, Dir3, Vec3};

verus! {

/// A triangle with three vertices and a shading normal at each.
#[derive(Clone, Copy, PartialEq, Eq, Structural, Debug)]
pub struct Triangle {
    pub v0: Vec3,
    pub v1: Vec3,
    pub v2: Vec3,
    pub n0: Vec3,
    pub n1: Vec3,
    pub n2: Vec3,
    pub material: Material,
}

/// Well-formed: all vertices and vertex normals in range.
pub open spec fn triangle_wf(t: Triangle) -> bool {
    vec_wf(t.v0) && vec_wf(t.v1) && vec_wf(t.v2) && vec_wf(t.n0) && vec_wf(t.n1) && vec_wf(t.n2)
}

/// The component-wise minimum of the three vertices.
pub open spec fn spec_triangle_minimum(t: Triangle) -> Vec3 {
    Vec3 {
        x: imin(t.v0.x as int, imin(t.v1.x as int, t.v2.x as int)) as i64,
        y: imin(t.v0.y as int, imin(t.v1.y as int, t.v2.y as int)) as i64,
        z: imin(t.v0.z as int, imin(t.v1.z as int, t.v2.z as int)) as i64,
    }
}

/// The component-wise maximum of the three vertices.
pub open spec fn spec_triangle_maximum(t: Triangle) -> Vec3 {
    Vec3 {
        x: imax(t.v0.x as int, imax(t.v1.x as int, t.v2.x as int)) as i64,
        y: imax(t.v0.y as int, imax(t.v1.y as int, t.v2.y as int)) as i64,
        z: imax(t.v0.z as int, imax(t.v1.z as int, t.v2.z as int)) as i64,
    }
}

/// The box around the triangle's vertices, padded by one fixed-point unit
/// on every axis so that an axis-aligned triangle never has a flat box for
/// the slab test.
pub open spec fn spec_triangle_bounding_box(t: Triangle) -> Aabb {
    let lo = spec_triangle_minimum(t);
    let hi = spec_triangle_maximum(t);
    Aabb {
        minimum: Vec3 { x: (lo.x - 1) as i64, y: (lo.y - 1) as i64, z: (lo.z - 1) as i64 },
        maximum: Vec3 { x: (hi.x + 1) as i64, y: (hi.y + 1) as i64, z: (hi.z + 1) as i64 },
    }
}

/// The exact Moller-Trumbore test, scaled by the determinant so that every
/// comparison is on integers: the barycentric numerators must be
/// nonnegative and sum to at most the determinant. A non-positive
/// determinant (a ray parallel to the plane, or a back-facing triangle)
/// misses. The parameter must lie in the query window (inclusive).
pub open spec fn triangle_hit_spec(tr: Triangle, ray: Ray, t_min: Rat, t_max: Rat) -> Option<
    HitRecord,
> {
    let e1x = t_of(tr.v1.x) - t_of(tr.v0.x);
    let e1y = t_of(tr.v1.y) - t_of(tr.v0.y);
    let e1z = t_of(tr.v1.z) - t_of(tr.v0.z);
    let e2x = t_of(tr.v2.x) - t_of(tr.v0.x);
    let e2y = t_of(tr.v2.y) - t_of(tr.v0.y);
    let e2z = t_of(tr.v2.z) - t_of(tr.v0.z);
    let dx = t_of(ray.direction.x);
    let dy = t_of(ray.direction.y);
    let dz = t_of(ray.direction.z);
    let pvx = dy * e2z - dz * e2y;
    let pvy = dz * e2x - dx * e2z;
    let pvz = dx * e2y - dy * e2x;
    let det = e1x * pvx + e1y * pvy + e1z * pvz;
    if det <= 0 {
        None
    } else {
        let tvx = t_of(ray.origin.x) - t_of(tr.v0.x);
        let tvy = t_of(ray.origin.y) - t_of(tr.v0.y);
        let tvz = t_of(ray.origin.z) - t_of(tr.v0.z);
        let uu = tvx * pvx + tvy * pvy + tvz * pvz;
        if uu < 0 || uu > det {
            None
        } else {
            let qvx = tvy * e1z - tvz * e1y;
            let qvy = tvz * e1x - tvx * e1z;
            let qvz = tvx * e1y - tvy * e1x;
            let vv = dx * qvx + dy * qvy + dz * qvz;
            if vv < 0 || uu + vv > det {
                None
            } else {
                let tt = e2x * qvx + e2y * qvy + e2z * qvz;
                let t = mk_rat(tt, det);
                if rat_lt(t, t_min) || rat_lt(t_max, t) {
                    None
                } else {
                    let w = det - uu - vv;
                    Some(
                        HitRecord {
                            parameter: t,
                            u: mk_rat(uu, det),
                            v: mk_rat(vv, det),
                            point: spec_point_at(ray, t),
                            geometric_normal: Dir3 {
                                x: (e1y * e2z - e1z * e2y) as i128,
                                y: (e1z * e2x - e1x * e2z) as i128,
                                z: (e1x * e2y - e1y * e2x) as i128,
                            },
                            shading_normal: Dir3 {
                                x: (w * tr.n0.x + uu * tr.n1.x + vv * tr.n2.x) as i128,
                                y: (w * tr.n0.y + uu * tr.n1.y + vv * tr.n2.y) as i128,
                                z: (w * tr.n0.z + uu * tr.n1.z + vv * tr.n2.z) as i128,
                            },
                            material: tr.material,
                        },
                    )
                }
            }
        }
    }
}

/// An `i64` coordinate as a mathematical integer.
pub open spec fn t_of(x: i64) -> int {
    x as int
}

impl Triangle {
    /// Create a new triangle with vertices v0, v1 and v2 and a shading
    /// normal at each vertex.
    pub fn new(v0: Vec3, v1: Vec3, v2: Vec3, n0: Vec3, n1: Vec3, n2: Vec3, material: Material) -> (
        r: Triangle)
        requires
            triangle_wf(Triangle { v0, v1, v2, n0, n1, n2, material }),
        ensures
            r == (Triangle { v0, v1, v2, n0, n1, n2, material }),
    {
        Triangle { v0, v1, v2, n0, n1, n2, material }
    }

    /// Create a triangle as one face of a larger assembly, from the same
    /// parts as [`Triangle::new`].
    pub fn from_box(v0: Vec3, v1: Vec3, v2: Vec3, n0: Vec3, n1: Vec3, n2: Vec3, material: Material)
        -> (r: Triangle)
        requires
            triangle_wf(Triangle { v0, v1, v2, n0, n1, n2, material }),
        ensures
            r == (Triangle { v0, v1, v2, n0, n1, n2, material }),
    {
        Triangle { v0, v1, v2, n0, n1, n2, material }
    }

    /// The component-wise minimum of the vertices.
    pub fn minimum(&self) -> (r: Vec3)
        ensures
            r == spec_triangle_minimum(*self),
    {
        self.v0.min(&self.v1.min(&self.v2))
    }

    /// The component-wise maximum of the vertices.
    pub fn maximum(&self) -> (r: Vec3)
        ensures
            r == spec_triangle_maximum(*self),
    {
        self.v0.max(&self.v1.max(&self.v2))
    }

    /// The padded box around the vertices.
    pub fn bounding_box(&self) -> (r: Aabb)
        requires
            triangle_wf(*self),
        ensures
            r == spec_triangle_bounding_box(*self),
    {
        let lo = self.minimum();
        let hi = self.maximum();
        Aabb::from(
            Vec3::new(lo.x - 1, lo.y - 1, lo.z - 1),
            Vec3::new(hi.x + 1, hi.y + 1, hi.z + 1),
        )
    }

    /// Determine whether the ray hits the triangle, exactly.
    pub fn hit(&self, ray: &Ray, position_min: &Rat, position_max: &Rat) -> (r: Option<HitRecord>)
        requires
            triangle_wf(*self),
            ray_wf(*ray),
            rat_wf(*position_min),
            rat_wf(*position_max),
        ensures
            r == triangle_hit_spec(*self, *ray, *position_min, *position_max),
    {
        let e1: Vec3 = self.v1.sub(&self.v0);
        let e2: Vec3 = self.v2.sub(&self.v0);
        let pvec: Dir3 = cross128(&ray.direction, &e2);
        proof {
            lemma_abs_mul_bound(e1.x as int, pvec.x as int, 0x100000, 0x200_0000_0000);
            lemma_abs_mul_bound(e1.y as int, pvec.y as int, 0x100000, 0x200_0000_0000);
            lemma_abs_mul_bound(e1.z as int, pvec.z as int, 0x100000, 0x200_0000_0000);
        }
        let det: i128 = dot_dir(&e1, &pvec);
        if det <= 0 {
            return None;
        }
        let tvec: Vec3 = ray.origin.sub(&self.v0);
        proof {
            lemma_abs_mul_bound(tvec.x as int, pvec.x as int, 0x100000, 0x200_0000_0000);
            lemma_abs_mul_bound(tvec.y as int, pvec.y as int, 0x100000, 0x200_0000_0000);
            lemma_abs_mul_bound(tvec.z as int, pvec.z as int, 0x100000, 0x200_0000_0000);
        }
        let uu: i128 = dot_dir(&tvec, &pvec);
        if uu < 0 || uu > det {
            return None;
        }
        let qvec: Dir3 = cross128(&tvec, &e1);
        proof {
            lemma_abs_mul_bound(ray.direction.x as int, qvec.x as int, 0x100000, 0x200_0000_0000);
            lemma_abs_mul_bound(ray.direction.y as int, qvec.y as int, 0x100000, 0x200_0000_0000);
            lemma_abs_mul_bound(ray.direction.z as int, qvec.z as int, 0x100000, 0x200_0000_0000);
        }
        let vv: i128 = dot_dir(&ray.direction, &qvec);
        if vv < 0 || uu + vv > det {
            return None;
        }
        proof {
            lemma_abs_mul_bound(e2.x as int, qvec.x as int, 0x100000, 0x200_0000_0000);
            lemma_abs_mul_bound(e2.y as int, qvec.y as int, 0x100000, 0x200_0000_0000);
            lemma_abs_mul_bound(e2.z as int, qvec.z as int, 0x100000, 0x200_0000_0000);
        }
        let tt: i128 = dot_dir(&e2, &qvec);
        let t = Rat { num: tt, den: det };
        if t.lt(position_min) || position_max.lt(&t) {
            return None;
        }
        let w: i128 = det - uu - vv;
        proof {
            lemma_abs_mul_bound(w as int, self.n0.x as int, 0x8000_0000_0000_0000, 0x80000);
            lemma_abs_mul_bound(w as int, self.n0.y as int, 0x8000_0000_0000_0000, 0x80000);
            lemma_abs_mul_bound(w as int, self.n0.z as int, 0x8000_0000_0000_0000, 0x80000);
            lemma_abs_mul_bound(uu as int, self.n1.x as int, 0x8000_0000_0000_0000, 0x80000);
            lemma_abs_mul_bound(uu as int, self.n1.y as int, 0x8000_0000_0000_0000, 0x80000);
            lemma_abs_mul_bound(uu as int, self.n1.z as int, 0x8000_0000_0000_0000, 0x80000);
            lemma_abs_mul_bound(vv as int, self.n2.x as int, 0x8000_0000_0000_0000, 0x80000);
            lemma_abs_mul_bound(vv as int, self.n2.y as int, 0x8000_0000_0000_0000, 0x80000);
            lemma_abs_mul_bound(vv as int, self.n2.z as int, 0x8000_0000_0000_0000, 0x80000);
        }
        let sn = Dir3 {
            x: w * (self.n0.x as i128) + uu * (self.n1.x as i128) + vv * (self.n2.x as i128),
            y: w * (self.n0.y as i128) + uu * (self.n1.y as i128) + vv * (self.n2.y as i128),
            z: w * (self.n0.z as i128) + uu * (self.n1.z as i128) + vv * (self.n2.z as i128),
        };
        let record = HitRecord {
            parameter: t,
            u: Rat { num: uu, den: det },
            v: Rat { num: vv, den: det },
            point: ray.point_at_parameter(&t),
            geometric_normal: cross128(&e1, &e2),
            shading_normal: sn,
            material: self.material,
        };
        Some(record)
    }
}

/// A triangle hit is well-formed and lies within the query window.
pub proof fn lemma_triangle_hit_props(tr: Triangle, ray: Ray, t_min: Rat, t_max: Rat)
    requires
        triangle_wf(tr),
        ray_wf(ray),
        rat_wf(t_min),
        rat_wf(t_max),
    ensures
        triangle_hit_spec(tr, ray, t_min, t_max) matches Some(h) ==> hit_wf(h) && rat_le(
            t_min,
            h.parameter,
        ) && rat_le(h.parameter, t_max),
{
    let e1x = t_of(tr.v1.x) - t_of(tr.v0.x);
    let e1y = t_of(tr.v1.y) - t_of(tr.v0.y);
    let e1z = t_of(tr.v1.z) - t_of(tr.v0.z);
    let e2x = t_of(tr.v2.x) - t_of(tr.v0.x);
    let e2y = t_of(tr.v2.y) - t_of(tr.v0.y);
    let e2z = t_of(tr.v2.z) - t_of(tr.v0.z);
    let dx = t_of(ray.direction.x);
    let dy = t_of(ray.direction.y);
    let dz = t_of(ray.direction.z);
    lemma_abs_mul_bound(dy, e2z, 0x100000, 0x100000);
    lemma_abs_mul_bound(dz, e2y, 0x100000, 0x100000);
    lemma_abs_mul_bound(dz, e2x, 0x100000, 0x100000);
    lemma_abs_mul_bound(dx, e2z, 0x100000, 0x100000);
    lemma_abs_mul_bound(dx, e2y, 0x100000, 0x100000);
    lemma_abs_mul_bound(dy, e2x, 0x100000, 0x100000);
    let pvx = dy * e2z - dz * e2y;
    let pvy = dz * e2x - dx * e2z;
    let pvz = dx * e2y - dy * e2x;
    lemma_abs_mul_bound(e1x, pvx, 0x100000, 0x200_0000_0000);
    lemma_abs_mul_bound(e1y, pvy, 0x100000, 0x200_0000_0000);
    lemma_abs_mul_bound(e1z, pvz, 0x100000, 0x200_0000_0000);
    let det = e1x * pvx + e1y * pvy + e1z * pvz;
    if det > 0 {
        let tvx = t_of(ray.origin.x) - t_of(tr.v0.x);
        let tvy = t_of(ray.origin.y) - t_of(tr.v0.y);
        let tvz = t_of(ray.origin.z) - t_of(tr.v0.z);
        lemma_abs_mul_bound(tvx, pvx, 0x100000, 0x200_0000_0000);
        lemma_abs_mul_bound(tvy, pvy, 0x100000, 0x200_0000_0000);
        lemma_abs_mul_bound(tvz, pvz, 0x100000, 0x200_0000_0000);
        let uu = tvx * pvx + tvy * pvy + tvz * pvz;
        if 0 <= uu <= det {
            lemma_abs_mul_bound(tvy, e1z, 0x100000, 0x100000);
            lemma_abs_mul_bound(tvz, e1y, 0x100000, 0x100000);
            lemma_abs_mul_bound(tvz, e1x, 0x100000, 0x100000);
            lemma_abs_mul_bound(tvx, e1z, 0x100000, 0x100000);
            lemma_abs_mul_bound(tvx, e1y, 0x100000, 0x100000);
            lemma_abs_mul_bound(tvy, e1x, 0x100000, 0x100000);
            let qvx = tvy * e1z - tvz * e1y;
            let qvy = tvz * e1x - tvx * e1z;
            let qvz = tvx * e1y - tvy * e1x;
            lemma_abs_mul_bound(dx, qvx, 0x100000, 0x200_0000_0000);
            lemma_abs_mul_bound(dy, qvy, 0x100000, 0x200_0000_0000);
            lemma_abs_mul_bound(dz, qvz, 0x100000, 0x200_0000_0000);
            let vv = dx * qvx + dy * qvy + dz * qvz;
            if 0 <= vv && uu + vv <= det {
                lemma_abs_mul_bound(e2x, qvx, 0x100000, 0x200_0000_0000);
                lemma_abs_mul_bound(e2y, qvy, 0x100000, 0x200_0000_0000);
                lemma_abs_mul_bound(e2z, qvz, 0x100000, 0x200_0000_0000);
                let tt = e2x * qvx + e2y * qvy + e2z * qvz;
                let t = mk_rat(tt, det);
                assert(rat_wf(t));
                if !rat_lt(t, t_min) && !rat_lt(t_max, t) {
                    let w = det - uu - vv;
                    lemma_abs_mul_bound(w, tr.n0.x as int, 0x8000_0000_0000_0000, coord_bound());
                    lemma_abs_mul_bound(w, tr.n0.y as int, 0x8000_0000_0000_0000, coord_bound());
                    lemma_abs_mul_bound(w, tr.n0.z as int, 0x8000_0000_0000_0000, coord_bound());
                    lemma_abs_mul_bound(uu, tr.n1.x as int, 0x8000_0000_0000_0000, coord_bound());
                    lemma_abs_mul_bound(uu, tr.n1.y as int, 0x8000_0000_0000_0000, coord_bound());
                    lemma_abs_mul_bound(uu, tr.n1.z as int, 0x8000_0000_0000_0000, coord_bound());
                    lemma_abs_mul_bound(vv, tr.n2.x as int, 0x8000_0000_0000_0000, coord_bound());
                    lemma_abs_mul_bound(vv, tr.n2.y as int, 0x8000_0000_0000_0000, coord_bound());
                    lemma_abs_mul_bound(vv, tr.n2.z as int, 0x8000_0000_0000_0000, coord_bound());
                    lemma_abs_mul_bound(e1y, e2z, 0x100000, 0x100000);
                    lemma_abs_mul_bound(e1z, e2y, 0x100000, 0x100000);
                    lemma_abs_mul_bound(e1z, e2x, 0x100000, 0x100000);
                    lemma_abs_mul_bound(e1x, e2z, 0x100000, 0x100000);
                    lemma_abs_mul_bound(e1x, e2y, 0x100000, 0x100000);
                    lemma_abs_mul_bound(e1y, e2x, 0x100000, 0x100000);
                    lemma_abs_mul_bound(ray.origin.x as int, t.den as int, coord_bound(), 0x8000_0000_0000_0000);
                    lemma_abs_mul_bound(ray.origin.y as int, t.den as int, coord_bound(), 0x8000_0000_0000_0000);
                    lemma_abs_mul_bound(ray.origin.z as int, t.den as int, coord_bound(), 0x8000_0000_0000_0000);
                    lemma_abs_mul_bound(t.num as int, ray.direction.x as int, 0x8000_0000_0000_0000, coord_bound());
                    lemma_abs_mul_bound(t.num as int, ray.direction.y as int, 0x8000_0000_0000_0000, coord_bound());
                    lemma_abs_mul_bound(t.num as int, ray.direction.z as int, 0x8000_0000_0000_0000, coord_bound());
                }
            }
        }
    }
}

/// A mesh: a list of triangles scanned as one shape.
pub struct TriangleMesh {
    pub triangles: Vec<Triangle>,
    pub hitables: crate::world::World,
    pub material: Material,
}

/// Well-formed: every triangle in range, and the scanned list is exactly
/// the triangle list.
pub open spec fn mesh_wf(m: TriangleMesh) -> bool {
    m.hitables.objects@.len() == m.triangles@.len() && (forall|i: int|
        0 <= i < m.triangles@.len() ==> m.hitables.objects@[i] == Shape::Triangle(
            #[trigger] m.triangles@[i],
        )) && crate::world::all_wf(m.hitables.objects@)
}

impl TriangleMesh {
    /// Gather triangles into a mesh; the material tags the mesh as a
    /// whole, each triangle already carrying its own.
    pub fn new(triangles: Vec<Triangle>, material: Material) -> (r: TriangleMesh)
        requires
            forall|i: int| 0 <= i < triangles@.len() ==> triangle_wf(#[trigger] triangles@[i]),
        ensures
            r.triangles@ == triangles@,
            r.material == material,
            mesh_wf(r),
    {
        let mut world = crate::world::World::new();
        let mut i: usize = 0;
        while i < triangles.len()
            invariant
                i <= triangles@.len(),
                world.objects@.len() == i,
                forall|j: int|
                    0 <= j < i ==> world.objects@[j] == Shape::Triangle(#[trigger] triangles@[j]),
                forall|j: int| 0 <= j < triangles@.len() ==> triangle_wf(#[trigger] triangles@[j]),
            decreases triangles@.len() - i,
        {
            world.add(Shape::Triangle(triangles[i]));
            i = i + 1;
        }
        proof {
            assert forall|j: int|
                0 <= j < world.objects@.len() implies crate::hitable::shape_wf(
                #[trigger] world.objects@[j],
            ) by {
                assert(world.objects@[j] == Shape::Triangle(triangles@[j]));
                assert(triangle_wf(triangles@[j]));
            }
        }
        TriangleMesh { triangles, hitables: world, material }
    }

    /// The closest hit over the mesh, by a linear scan of its triangles.
    pub fn hit(&self, ray: &Ray, position_min: &Rat, position_max: &Rat) -> (r: Option<HitRecord>)
        requires
            mesh_wf(*self),
            ray_wf(*ray),
            rat_wf(*position_min),
            rat_wf(*position_max),
        ensures
            r == crate::world::brute_hit(
                self.hitables.objects@,
                *ray,
                *position_min,
                *position_max,
            ),
    {
        self.hitables.hit(ray, position_min, position_max)
    }

    /// The box around every triangle of the mesh; the empty mesh gets the
    /// empty box.
    pub fn bounding_box(&self) -> (r: Option<crate::aabb::Aabb>)
        requires
            mesh_wf(*self),
        ensures
            r == Some(crate::world::boxes_union(self.hitables.objects@)),
    {
        if self.hitables.objects.len() == 0 {
            proof {
                assert(self.hitables.objects@ =~= Seq::<Shape>::empty());
            }
            return Some(crate::aabb::Aabb::new());
        }
        Some(crate::world::world_boxes_union(&self.hitables.objects))
    }
}

} // verus!
