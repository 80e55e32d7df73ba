//! Axis-aligned rectangles.

use vstd::prelude::*;

use crate::aabb::{mk_rat, Aabb};
use crate::hitable::{hit_wf, HitRecord};
use crate::materials::Material;
use crate::rat::{lemma_abs_mul_bound, rat_le, rat_lt, rat_wf, Rat};
use crate::ray::{ray_wf, spec_point_at, Ray};
use crate::vec3::{coord_bound, vec_axis, Dir3, Vec3};

verus! {

/// The orientation of an axis-aligned rectangle: the two axes it spans.
#[derive(Clone, Copy, PartialEq, Eq, Structural, Debug)]
pub enum Axis {
    XY,
    YZ,
    XZ,
}

/// The index of the axis the rectangle is perpendicular to.
pub open spec fn fixed_axis(a: Axis) -> int {
    match a {
        Axis::XY => 2,
        Axis::YZ => 0,
        Axis::XZ => 1,
    }
}

/// The index of the first spanned axis, the one `r0..r1` ranges over.
pub open spec fn in_axis1(a: Axis) -> int {
    match a {
        Axis::XY => 0,
        Axis::YZ => 1,
        Axis::XZ => 0,
    }
}

/// The index of the second spanned axis, the one `s0..s1` ranges over.
pub open spec fn in_axis2(a: Axis) -> int {
    match a {
        Axis::XY => 1,
        Axis::YZ => 2,
        Axis::XZ => 2,
    }
}

/// The unit normal along the given axis index.
pub open spec fn axis_unit(f: int) -> Dir3 {
    if f == 0 {
        Dir3 { x: 1i128, y: 0i128, z: 0i128 }
    } else if f == 1 {
        Dir3 { x: 0i128, y: 1i128, z: 0i128 }
    } else {
        Dir3 { x: 0i128, y: 0i128, z: 1i128 }
    }
}

/// An axis-aligned rectangle spanning `[r0, r1] x [s0, s1]` at offset `k`
/// along its fixed axis.
#[derive(Clone, Copy, PartialEq, Eq, Structural, Debug)]
pub struct Plane {
    pub axis: Axis,
    pub r0: i64,
    pub r1: i64,
    pub s0: i64,
    pub s1: i64,
    pub k: i64,
    pub material: Material,
}

/// Well-formed: coordinates in range and a positive extent on both axes.
pub open spec fn plane_wf(p: Plane) -> bool {
    -coord_bound() <= p.r0 <= coord_bound() && -coord_bound() <= p.r1 <= coord_bound()
        && -coord_bound() <= p.s0 <= coord_bound() && -coord_bound() <= p.s1 <= coord_bound()
        && -coord_bound() <= p.k <= coord_bound() && p.r0 < p.r1 && p.s0 < p.s1
}

/// The rectangle's box, padded by one fixed-point unit along the fixed axis
/// so it is never flat for the slab test.
pub open spec fn spec_plane_bounding_box(p: Plane) -> Aabb {
    match p.axis {
        Axis::XY => Aabb {
            minimum: Vec3 { x: p.r0, y: p.s0, z: (p.k - 1) as i64 },
            maximum: Vec3 { x: p.r1, y: p.s1, z: (p.k + 1) as i64 },
        },
        Axis::YZ => Aabb {
            minimum: Vec3 { x: (p.k - 1) as i64, y: p.r0, z: p.s0 },
            maximum: Vec3 { x: (p.k + 1) as i64, y: p.r1, z: p.s1 },
        },
        Axis::XZ => Aabb {
            minimum: Vec3 { x: p.r0, y: (p.k - 1) as i64, z: p.s0 },
            maximum: Vec3 { x: p.r1, y: (p.k + 1) as i64, z: p.s1 },
        },
    }
}

/// The exact rectangle hit: one linear equation gives the parameter; the
/// hit stands when the parameter lies inside the query window (inclusive)
/// and the two in-plane coordinates lie inside the extent. A ray parallel
/// to the rectangle's plane misses.
pub open spec fn plane_hit_spec(p: Plane, ray: Ray, t_min: Rat, t_max: Rat) -> Option<HitRecord> {
    let of = vec_axis(ray.origin, fixed_axis(p.axis));
    let df = vec_axis(ray.direction, fixed_axis(p.axis));
    if df == 0 {
        None
    } else {
        let t = if df > 0 {
            mk_rat(p.k - of, df)
        } else {
            mk_rat(of - p.k, -df)
        };
        if rat_lt(t, t_min) || rat_lt(t_max, t) {
            None
        } else {
            let o1 = vec_axis(ray.origin, in_axis1(p.axis));
            let d1 = vec_axis(ray.direction, in_axis1(p.axis));
            let o2 = vec_axis(ray.origin, in_axis2(p.axis));
            let d2 = vec_axis(ray.direction, in_axis2(p.axis));
            let c1 = o1 * t.den + t.num * d1;
            let c2 = o2 * t.den + t.num * d2;
            if c1 < p.r0 * t.den || c1 > p.r1 * t.den || c2 < p.s0 * t.den || c2 > p.s1 * t.den {
                None
            } else {
                let n = axis_unit(fixed_axis(p.axis));
                Some(
                    HitRecord {
                        parameter: t,
                        u: mk_rat(c1 - p.r0 * t.den, (p.r1 - p.r0) * t.den),
                        v: mk_rat(c2 - p.s0 * t.den, (p.s1 - p.s0) * t.den),
                        point: spec_point_at(ray, t),
                        geometric_normal: n,
                        shading_normal: n,
                        material: p.material,
                    },
                )
            }
        }
    }
}

impl Plane {
    /// Create a new rectangle.
    pub fn new(axis: Axis, r0: i64, r1: i64, s0: i64, s1: i64, k: i64, material: Material) -> (r:
        Plane)
        requires
            plane_wf(Plane { axis, r0, r1, s0, s1, k, material }),
        ensures
            r == (Plane { axis, r0, r1, s0, s1, k, material }),
    {
        Plane { axis, r0, r1, s0, s1, k, material }
    }

    /// Create a rectangle as one face of an axis-aligned box.
    pub fn from_box(axis: Axis, r0: i64, r1: i64, s0: i64, s1: i64, k: i64, material: Material) -> (
        r: Plane)
        requires
            plane_wf(Plane { axis, r0, r1, s0, s1, k, material }),
        ensures
            r == (Plane { axis, r0, r1, s0, s1, k, material }),
    {
        Plane { axis, r0, r1, s0, s1, k, material }
    }

    /// The index of the axis this rectangle is perpendicular to.
    fn fixed_axis_index(&self) -> (r: usize)
        ensures
            r == fixed_axis(self.axis),
    {
        match self.axis {
            Axis::XY => 2,
            Axis::YZ => 0,
            Axis::XZ => 1,
        }
    }

    /// The rectangle's padded bounding box.
    pub fn bounding_box(&self) -> (r: Aabb)
        requires
            plane_wf(*self),
        ensures
            r == spec_plane_bounding_box(*self),
    {
        match self.axis {
            Axis::XY => Aabb::from(
                Vec3::new(self.r0, self.s0, self.k - 1),
                Vec3::new(self.r1, self.s1, self.k + 1),
            ),
            Axis::YZ => Aabb::from(
                Vec3::new(self.k - 1, self.r0, self.s0),
                Vec3::new(self.k + 1, self.r1, self.s1),
            ),
            Axis::XZ => Aabb::from(
                Vec3::new(self.r0, self.k - 1, self.s0),
                Vec3::new(self.r1, self.k + 1, self.s1),
            ),
        }
    }

    /// Intersect a ray with the rectangle, exactly.
    pub fn hit(&self, ray: &Ray, position_min: &Rat, position_max: &Rat) -> (r: Option<HitRecord>)
        requires
            plane_wf(*self),
            ray_wf(*ray),
            rat_wf(*position_min),
            rat_wf(*position_max),
        ensures
            r == plane_hit_spec(*self, *ray, *position_min, *position_max),
    {
        let f = self.fixed_axis_index();
        let of: i64 = ray.origin.get(f);
        let df: i64 = ray.direction.get(f);
        if df == 0 {
            return None;
        }
        let t: Rat = if df > 0 {
            Rat::new(self.k - of, df)
        } else {
            Rat::new(of - self.k, -df)
        };
        if t.lt(position_min) || position_max.lt(&t) {
            return None;
        }
        let (a1, a2): (usize, usize) = match self.axis {
            Axis::XY => (0, 1),
            Axis::YZ => (1, 2),
            Axis::XZ => (0, 2),
        };
        let o1: i64 = ray.origin.get(a1);
        let d1: i64 = ray.direction.get(a1);
        let o2: i64 = ray.origin.get(a2);
        let d2: i64 = ray.direction.get(a2);
        proof {
            lemma_abs_mul_bound(o1 as int, t.den as int, 0x80000, 0x100000);
            lemma_abs_mul_bound(t.num as int, d1 as int, 0x100000, 0x80000);
            lemma_abs_mul_bound(o2 as int, t.den as int, 0x80000, 0x100000);
            lemma_abs_mul_bound(t.num as int, d2 as int, 0x100000, 0x80000);
            lemma_abs_mul_bound(self.r0 as int, t.den as int, 0x80000, 0x100000);
            lemma_abs_mul_bound(self.r1 as int, t.den as int, 0x80000, 0x100000);
            lemma_abs_mul_bound(self.s0 as int, t.den as int, 0x80000, 0x100000);
            lemma_abs_mul_bound(self.s1 as int, t.den as int, 0x80000, 0x100000);
        }
        let c1: i128 = (o1 as i128) * t.den + t.num * (d1 as i128);
        let c2: i128 = (o2 as i128) * t.den + t.num * (d2 as i128);
        let r0d: i128 = (self.r0 as i128) * t.den;
        let r1d: i128 = (self.r1 as i128) * t.den;
        let s0d: i128 = (self.s0 as i128) * t.den;
        let s1d: i128 = (self.s1 as i128) * t.den;
        if c1 < r0d || c1 > r1d || c2 < s0d || c2 > s1d {
            return None;
        }
        proof {
            lemma_abs_mul_bound(
                (self.r1 - self.r0) as int,
                t.den as int,
                0x100000,
                0x100000,
            );
            lemma_abs_mul_bound(
                (self.s1 - self.s0) as int,
                t.den as int,
                0x100000,
                0x100000,
            );
        }
        let u = Rat { num: c1 - r0d, den: ((self.r1 - self.r0) as i128) * t.den };
        let v = Rat { num: c2 - s0d, den: ((self.s1 - self.s0) as i128) * t.den };
        let n: Dir3 = if f == 0 {
            Dir3 { x: 1, y: 0, z: 0 }
        } else if f == 1 {
            Dir3 { x: 0, y: 1, z: 0 }
        } else {
            Dir3 { x: 0, y: 0, z: 1 }
        };
        let record = HitRecord {
            parameter: t,
            u,
            v,
            point: ray.point_at_parameter(&t),
            geometric_normal: n,
            shading_normal: n,
            material: self.material,
        };
        Some(record)
    }
}

/// A rectangle hit is well-formed and lies within the query window.
pub proof fn lemma_plane_hit_props(p: Plane, ray: Ray, t_min: Rat, t_max: Rat)
    requires
        plane_wf(p),
        ray_wf(ray),
        rat_wf(t_min),
        rat_wf(t_max),
    ensures
        plane_hit_spec(p, ray, t_min, t_max) matches Some(h) ==> hit_wf(h) && rat_le(
            t_min,
            h.parameter,
        ) && rat_le(h.parameter, t_max),
{
    let of = vec_axis(ray.origin, fixed_axis(p.axis));
    let df = vec_axis(ray.direction, fixed_axis(p.axis));
    if df != 0 {
        let t = if df > 0 {
            mk_rat(p.k - of, df)
        } else {
            mk_rat(of - p.k, -df)
        };
        assert(rat_wf(t));
        if !rat_lt(t, t_min) && !rat_lt(t_max, t) {
            let o1 = vec_axis(ray.origin, in_axis1(p.axis));
            let d1 = vec_axis(ray.direction, in_axis1(p.axis));
            let o2 = vec_axis(ray.origin, in_axis2(p.axis));
            let d2 = vec_axis(ray.direction, in_axis2(p.axis));
            lemma_abs_mul_bound(o1, t.den as int, 0x80000, 0x100000);
            lemma_abs_mul_bound(t.num as int, d1, 0x100000, 0x80000);
            lemma_abs_mul_bound(o2, t.den as int, 0x80000, 0x100000);
            lemma_abs_mul_bound(t.num as int, d2, 0x100000, 0x80000);
            lemma_abs_mul_bound(p.r0 as int, t.den as int, 0x80000, 0x100000);
            lemma_abs_mul_bound(p.s0 as int, t.den as int, 0x80000, 0x100000);
            lemma_abs_mul_bound(
                (p.r1 - p.r0) as int,
                t.den as int,
                0x100000,
                0x100000,
            );
            lemma_abs_mul_bound(
                (p.s1 - p.s0) as int,
                t.den as int,
                0x100000,
                0x100000,
            );
            assert((p.r1 - p.r0) * t.den > 0) by (nonlinear_arith)
                requires
                    p.r1 - p.r0 > 0,
                    t.den > 0,
            ;
            assert((p.s1 - p.s0) * t.den > 0) by (nonlinear_arith)
                requires
                    p.s1 - p.s0 > 0,
                    t.den > 0,
            ;
            lemma_abs_mul_bound(ray.origin.x as int, t.den as int, 0x80000, 0x100000);
            lemma_abs_mul_bound(ray.origin.y as int, t.den as int, 0x80000, 0x100000);
            lemma_abs_mul_bound(ray.origin.z as int, t.den as int, 0x80000, 0x100000);
            lemma_abs_mul_bound(t.num as int, ray.direction.x as int, 0x100000, 0x80000);
            lemma_abs_mul_bound(t.num as int, ray.direction.y as int, 0x100000, 0x80000);
            lemma_abs_mul_bound(t.num as int, ray.direction.z as int, 0x100000, 0x80000);
        }
    }
}

/// The parameter of a solved linear equation puts the ray exactly at `k`
/// on the solved axis.
proof fn lemma_linear_solution(of: int, df: int, k: int, t: Rat)
    requires
        -coord_bound() <= of <= coord_bound(),
        -coord_bound() <= df <= coord_bound(),
        -coord_bound() <= k <= coord_bound(),
        df != 0,
        t == (if df > 0 {
            mk_rat(k - of, df)
        } else {
            mk_rat(of - k, -df)
        }),
    ensures
        of * t.den + t.num * df == k * t.den,
{
    if df > 0 {
        assert(t.num == k - of);
        assert(t.den == df);
        assert(of * df + (k - of) * df == k * df) by (nonlinear_arith);
    } else {
        assert(t.num == of - k);
        assert(t.den == -df);
        assert(of * (-df) + (of - k) * df == k * (-df)) by (nonlinear_arith);
    }
}

/// A rectangle hit lies exactly on the rectangle's plane: the hit point's
/// coordinate on the fixed axis is `k`, as an exact rational.
pub proof fn lemma_plane_hit_on_plane(p: Plane, ray: Ray, t_min: Rat, t_max: Rat)
    requires
        plane_wf(p),
        ray_wf(ray),
        rat_wf(t_min),
        rat_wf(t_max),
    ensures
        plane_hit_spec(p, ray, t_min, t_max) matches Some(h) ==> crate::vec3::point_axis(
            h.point,
            fixed_axis(p.axis),
        ) == p.k * h.point.den,
{
    let of = vec_axis(ray.origin, fixed_axis(p.axis));
    let df = vec_axis(ray.direction, fixed_axis(p.axis));
    if df != 0 {
        let t = if df > 0 {
            mk_rat(p.k - of, df)
        } else {
            mk_rat(of - p.k, -df)
        };
        lemma_linear_solution(of, df, p.k as int, t);
        lemma_abs_mul_bound(of, t.den as int, coord_bound(), 0x80000);
        lemma_abs_mul_bound(t.num as int, df, 0x100000, 0x80000);
        let pt = crate::ray::spec_point_at(ray, t);
        match p.axis {
            Axis::XY => {
                assert(pt.z == ray.origin.z * t.den + t.num * ray.direction.z);
            },
            Axis::YZ => {
                assert(pt.x == ray.origin.x * t.den + t.num * ray.direction.x);
            },
            Axis::XZ => {
                assert(pt.y == ray.origin.y * t.den + t.num * ray.direction.y);
            },
        }
    }
}

} // verus!
