//! Axis-aligned bounding boxes with an exact slab intersection test.

use vstd::prelude::*;

use crate::rat::{
    lemma_rat_le_lt_trans, lemma_rat_lt_le_trans, lemma_rat_max_min_mono, rat_le, rat_lt, rat_wf,
    spec_rat_max, spec_rat_min, Rat,
};
use crate::ray::{ray_wf, Ray};
use crate::vec3::{coord_bound, imax, imin, vec_wf, Vec3};

verus! {

/// Magnitude bound on box corner coordinates: `2^21`.
///
/// Wider than [`coord_bound`] so that boxes of shifted geometry and padded
/// boxes of flat geometry stay representable.
pub open spec fn box_bound() -> int {
    0x200000
}

/// An axis-aligned box between two corner points.
#[derive(Clone, Copy, PartialEq, Eq, Structural, Debug)]
pub struct Aabb {
    pub minimum: Vec3,
    pub maximum: Vec3,
}

/// Well-formed: every corner coordinate bounded by [`box_bound`].
pub open spec fn aabb_wf(b: Aabb) -> bool {
    -box_bound() <= b.minimum.x <= box_bound() && -box_bound() <= b.minimum.y <= box_bound()
        && -box_bound() <= b.minimum.z <= box_bound() && -box_bound() <= b.maximum.x <= box_bound()
        && -box_bound() <= b.maximum.y <= box_bound() && -box_bound() <= b.maximum.z <= box_bound()
}

/// The box `outer` contains the box `inner` entirely.
pub open spec fn box_contains_box(outer: Aabb, inner: Aabb) -> bool {
    outer.minimum.x <= inner.minimum.x && outer.minimum.y <= inner.minimum.y && outer.minimum.z
        <= inner.minimum.z && inner.maximum.x <= outer.maximum.x && inner.maximum.y
        <= outer.maximum.y && inner.maximum.z <= outer.maximum.z
}

/// The union box of two boxes: minimum of minima, maximum of maxima.
pub open spec fn spec_surrounding_box(a: Aabb, b: Aabb) -> Aabb {
    Aabb {
        minimum: Vec3 {
            x: imin(a.minimum.x as int, b.minimum.x as int) as i64,
            y: imin(a.minimum.y as int, b.minimum.y as int) as i64,
            z: imin(a.minimum.z as int, b.minimum.z as int) as i64,
        },
        maximum: Vec3 {
            x: imax(a.maximum.x as int, b.maximum.x as int) as i64,
            y: imax(a.maximum.y as int, b.maximum.y as int) as i64,
            z: imax(a.maximum.z as int, b.maximum.z as int) as i64,
        },
    }
}

/// The rational `n / d` for integers with `d > 0`.
pub open spec fn mk_rat(n: int, d: int) -> Rat {
    Rat { num: n as i128, den: d as i128 }
}

/// Whether one axis admits any ray parameter at all.
///
/// Only a zero direction component can reject outright: then the ray runs
/// parallel to the slab and hits it exactly when the origin lies inside it.
pub open spec fn axis_pass(minc: int, maxc: int, o: int, d: int) -> bool {
    d != 0 || (minc <= o && o <= maxc)
}

/// The running lower bound after intersecting with one axis slab.
pub open spec fn axis_lo(minc: int, maxc: int, o: int, d: int, lo: Rat) -> Rat {
    if d > 0 {
        spec_rat_max(lo, mk_rat(minc - o, d))
    } else if d < 0 {
        spec_rat_max(lo, mk_rat(o - maxc, -d))
    } else {
        lo
    }
}

/// The running upper bound after intersecting with one axis slab.
pub open spec fn axis_hi(minc: int, maxc: int, o: int, d: int, hi: Rat) -> Rat {
    if d > 0 {
        spec_rat_min(hi, mk_rat(maxc - o, d))
    } else if d < 0 {
        spec_rat_min(hi, mk_rat(o - minc, -d))
    } else {
        hi
    }
}

/// The slab test: per axis the entry and exit parameters are intersected
/// into a running interval that starts at the query interval; the box is hit
/// when every axis passes and the final interval is nonempty.
pub open spec fn slab_hit(b: Aabb, origin: Vec3, dir: Vec3, t_min: Rat, t_max: Rat) -> bool {
    let lo1 = axis_lo(b.minimum.x as int, b.maximum.x as int, origin.x as int, dir.x as int, t_min);
    let hi1 = axis_hi(b.minimum.x as int, b.maximum.x as int, origin.x as int, dir.x as int, t_max);
    let lo2 = axis_lo(b.minimum.y as int, b.maximum.y as int, origin.y as int, dir.y as int, lo1);
    let hi2 = axis_hi(b.minimum.y as int, b.maximum.y as int, origin.y as int, dir.y as int, hi1);
    let lo3 = axis_lo(b.minimum.z as int, b.maximum.z as int, origin.z as int, dir.z as int, lo2);
    let hi3 = axis_hi(b.minimum.z as int, b.maximum.z as int, origin.z as int, dir.z as int, hi2);
    axis_pass(b.minimum.x as int, b.maximum.x as int, origin.x as int, dir.x as int) && axis_pass(
        b.minimum.y as int,
        b.maximum.y as int,
        origin.y as int,
        dir.y as int,
    ) && axis_pass(b.minimum.z as int, b.maximum.z as int, origin.z as int, dir.z as int) && rat_lt(
        lo3,
        hi3,
    )
}

/// The running bounds of one axis stay well-formed.
proof fn lemma_axis_wf(minc: int, maxc: int, o: int, d: int, lo: Rat, hi: Rat)
    requires
        -box_bound() <= minc <= box_bound(),
        -box_bound() <= maxc <= box_bound(),
        -coord_bound() <= o <= coord_bound(),
        -coord_bound() <= d <= coord_bound(),
        rat_wf(lo),
        rat_wf(hi),
    ensures
        rat_wf(axis_lo(minc, maxc, o, d, lo)),
        rat_wf(axis_hi(minc, maxc, o, d, hi)),
{
}

/// One axis of the slab test is monotone under widening the box.
proof fn lemma_axis_mono(
    min1: int,
    max1: int,
    min2: int,
    max2: int,
    o: int,
    d: int,
    lo1: Rat,
    hi1: Rat,
    lo2: Rat,
    hi2: Rat,
)
    requires
        -box_bound() <= min2 <= min1,
        max1 <= max2 <= box_bound(),
        min1 <= box_bound(),
        -box_bound() <= max1,
        -coord_bound() <= o <= coord_bound(),
        -coord_bound() <= d <= coord_bound(),
        rat_wf(lo1),
        rat_wf(hi1),
        rat_wf(lo2),
        rat_wf(hi2),
        rat_le(lo2, lo1),
        rat_le(hi1, hi2),
    ensures
        axis_pass(min1, max1, o, d) ==> axis_pass(min2, max2, o, d),
        rat_le(axis_lo(min2, max2, o, d, lo2), axis_lo(min1, max1, o, d, lo1)),
        rat_le(axis_hi(min1, max1, o, d, hi1), axis_hi(min2, max2, o, d, hi2)),
{
    if d > 0 {
        assert((min2 - o) * d <= (min1 - o) * d) by (nonlinear_arith)
            requires
                min2 <= min1,
                d > 0,
        ;
        assert((max1 - o) * d <= (max2 - o) * d) by (nonlinear_arith)
            requires
                max1 <= max2,
                d > 0,
        ;
        assert(rat_le(mk_rat(min2 - o, d), mk_rat(min1 - o, d)));
        assert(rat_le(mk_rat(max1 - o, d), mk_rat(max2 - o, d)));
        lemma_rat_max_min_mono(lo2, mk_rat(min2 - o, d), lo1, mk_rat(min1 - o, d));
        lemma_rat_max_min_mono(hi1, mk_rat(max1 - o, d), hi2, mk_rat(max2 - o, d));
    } else if d < 0 {
        assert((o - max2) * (-d) <= (o - max1) * (-d)) by (nonlinear_arith)
            requires
                max1 <= max2,
                d < 0,
        ;
        assert((o - min1) * (-d) <= (o - min2) * (-d)) by (nonlinear_arith)
            requires
                min2 <= min1,
                d < 0,
        ;
        assert(rat_le(mk_rat(o - max2, -d), mk_rat(o - max1, -d)));
        assert(rat_le(mk_rat(o - min1, -d), mk_rat(o - min2, -d)));
        lemma_rat_max_min_mono(lo2, mk_rat(o - max2, -d), lo1, mk_rat(o - max1, -d));
        lemma_rat_max_min_mono(hi1, mk_rat(o - min1, -d), hi2, mk_rat(o - min2, -d));
    }
}

/// The slab test is monotone: a box containing a hit box is hit as well.
///
/// This is what makes pruning by a node's cached box sound: when the node's
/// box is missed, every box inside it is missed too.
pub proof fn lemma_slab_hit_monotone(
    inner: Aabb,
    outer: Aabb,
    origin: Vec3,
    dir: Vec3,
    t_min: Rat,
    t_max: Rat,
)
    requires
        aabb_wf(inner),
        aabb_wf(outer),
        vec_wf(origin),
        vec_wf(dir),
        rat_wf(t_min),
        rat_wf(t_max),
        box_contains_box(outer, inner),
        slab_hit(inner, origin, dir, t_min, t_max),
    ensures
        slab_hit(outer, origin, dir, t_min, t_max),
{
    let lo1x = axis_lo(
        inner.minimum.x as int,
        inner.maximum.x as int,
        origin.x as int,
        dir.x as int,
        t_min,
    );
    let hi1x = axis_hi(
        inner.minimum.x as int,
        inner.maximum.x as int,
        origin.x as int,
        dir.x as int,
        t_max,
    );
    let lo1y = axis_lo(
        inner.minimum.y as int,
        inner.maximum.y as int,
        origin.y as int,
        dir.y as int,
        lo1x,
    );
    let hi1y = axis_hi(
        inner.minimum.y as int,
        inner.maximum.y as int,
        origin.y as int,
        dir.y as int,
        hi1x,
    );
    let lo1z = axis_lo(
        inner.minimum.z as int,
        inner.maximum.z as int,
        origin.z as int,
        dir.z as int,
        lo1y,
    );
    let hi1z = axis_hi(
        inner.minimum.z as int,
        inner.maximum.z as int,
        origin.z as int,
        dir.z as int,
        hi1y,
    );
    let lo2x = axis_lo(
        outer.minimum.x as int,
        outer.maximum.x as int,
        origin.x as int,
        dir.x as int,
        t_min,
    );
    let hi2x = axis_hi(
        outer.minimum.x as int,
        outer.maximum.x as int,
        origin.x as int,
        dir.x as int,
        t_max,
    );
    let lo2y = axis_lo(
        outer.minimum.y as int,
        outer.maximum.y as int,
        origin.y as int,
        dir.y as int,
        lo2x,
    );
    let hi2y = axis_hi(
        outer.minimum.y as int,
        outer.maximum.y as int,
        origin.y as int,
        dir.y as int,
        hi2x,
    );
    let lo2z = axis_lo(
        outer.minimum.z as int,
        outer.maximum.z as int,
        origin.z as int,
        dir.z as int,
        lo2y,
    );
    let hi2z = axis_hi(
        outer.minimum.z as int,
        outer.maximum.z as int,
        origin.z as int,
        dir.z as int,
        hi2y,
    );
    lemma_axis_wf(
        inner.minimum.x as int,
        inner.maximum.x as int,
        origin.x as int,
        dir.x as int,
        t_min,
        t_max,
    );
    lemma_axis_wf(
        inner.minimum.y as int,
        inner.maximum.y as int,
        origin.y as int,
        dir.y as int,
        lo1x,
        hi1x,
    );
    lemma_axis_wf(
        inner.minimum.z as int,
        inner.maximum.z as int,
        origin.z as int,
        dir.z as int,
        lo1y,
        hi1y,
    );
    lemma_axis_wf(
        outer.minimum.x as int,
        outer.maximum.x as int,
        origin.x as int,
        dir.x as int,
        t_min,
        t_max,
    );
    lemma_axis_wf(
        outer.minimum.y as int,
        outer.maximum.y as int,
        origin.y as int,
        dir.y as int,
        lo2x,
        hi2x,
    );
    lemma_axis_wf(
        outer.minimum.z as int,
        outer.maximum.z as int,
        origin.z as int,
        dir.z as int,
        lo2y,
        hi2y,
    );
    lemma_axis_mono(
        inner.minimum.x as int,
        inner.maximum.x as int,
        outer.minimum.x as int,
        outer.maximum.x as int,
        origin.x as int,
        dir.x as int,
        t_min,
        t_max,
        t_min,
        t_max,
    );
    lemma_axis_mono(
        inner.minimum.y as int,
        inner.maximum.y as int,
        outer.minimum.y as int,
        outer.maximum.y as int,
        origin.y as int,
        dir.y as int,
        lo1x,
        hi1x,
        lo2x,
        hi2x,
    );
    lemma_axis_mono(
        inner.minimum.z as int,
        inner.maximum.z as int,
        outer.minimum.z as int,
        outer.maximum.z as int,
        origin.z as int,
        dir.z as int,
        lo1y,
        hi1y,
        lo2y,
        hi2y,
    );
    lemma_rat_lt_le_trans(lo1z, hi1z, hi2z);
    lemma_rat_le_lt_trans(lo2z, lo1z, hi2z);
}

impl Aabb {
    /// The empty box: the identity of [`Aabb::surrounding_box`], with the
    /// minimum corner above every point and the maximum corner below.
    pub fn new() -> (r: Aabb)
        ensures
            r.minimum == (Vec3 { x: i64::MAX, y: i64::MAX, z: i64::MAX }),
            r.maximum == (Vec3 { x: i64::MIN, y: i64::MIN, z: i64::MIN }),
    {
        Aabb { minimum: Vec3::splat(i64::MAX), maximum: Vec3::splat(i64::MIN) }
    }

    /// Create a new AABB from the minimum and maximum corner points.
    pub fn from(minimum: Vec3, maximum: Vec3) -> (r: Aabb)
        ensures
            r == (Aabb { minimum, maximum }),
    {
        Aabb { minimum, maximum }
    }

    /// Twice the sum of the pairwise face products: the surface area of the
    /// box, exact in `i128`.
    pub fn area(&self) -> (r: i128)
        requires
            aabb_wf(*self),
        ensures
            r == 2 * ((self.maximum.x - self.minimum.x) * (self.maximum.y - self.minimum.y) + (
            self.maximum.y - self.minimum.y) * (self.maximum.z - self.minimum.z) + (self.maximum.z
                - self.minimum.z) * (self.maximum.x - self.minimum.x)),
    {
        let dx: i128 = (self.maximum.x as i128) - (self.minimum.x as i128);
        let dy: i128 = (self.maximum.y as i128) - (self.minimum.y as i128);
        let dz: i128 = (self.maximum.z as i128) - (self.minimum.z as i128);
        proof {
            crate::rat::lemma_abs_mul_bound(dx as int, dy as int, 0x800000, 0x800000);
            crate::rat::lemma_abs_mul_bound(dy as int, dz as int, 0x800000, 0x800000);
            crate::rat::lemma_abs_mul_bound(dz as int, dx as int, 0x800000, 0x800000);
        }
        2 * (dx * dy + dy * dz + dz * dx)
    }

    /// The index of the axis with the greatest extent: 0, 1 or 2, preferring
    /// the lower index on ties.
    pub fn longest_axis(&self) -> (r: usize)
        requires
            aabb_wf(*self),
        ensures
            r < 3,
            r == 0 ==> self.maximum.x - self.minimum.x >= self.maximum.y - self.minimum.y
                && self.maximum.x - self.minimum.x >= self.maximum.z - self.minimum.z,
            r == 1 ==> self.maximum.y - self.minimum.y > self.maximum.x - self.minimum.x
                && self.maximum.y - self.minimum.y >= self.maximum.z - self.minimum.z,
            r == 2 ==> self.maximum.z - self.minimum.z > self.maximum.x - self.minimum.x
                && self.maximum.z - self.minimum.z > self.maximum.y - self.minimum.y,
    {
        let dx: i64 = self.maximum.x - self.minimum.x;
        let dy: i64 = self.maximum.y - self.minimum.y;
        let dz: i64 = self.maximum.z - self.minimum.z;
        if dx >= dy && dx >= dz {
            0
        } else if dy >= dz {
            1
        } else {
            2
        }
    }

    /// Perform an exact intersection test of a ray with this box.
    ///
    /// A zero direction component never rejects a ray whose origin lies
    /// inside that slab: the axis then simply leaves the running interval
    /// unchanged.
    pub fn hit(&self, ray: &Ray, position_min: &Rat, position_max: &Rat) -> (r: bool)
        requires
            aabb_wf(*self),
            ray_wf(*ray),
            rat_wf(*position_min),
            rat_wf(*position_max),
        ensures
            r == slab_hit(*self, ray.origin, ray.direction, *position_min, *position_max),
    {
        let mut lo: Rat = *position_min;
        let mut hi: Rat = *position_max;
        if !Self::axis_update(self.minimum.x, self.maximum.x, ray.origin.x, ray.direction.x, &mut lo, &mut hi) {
            return false;
        }
        if !Self::axis_update(self.minimum.y, self.maximum.y, ray.origin.y, ray.direction.y, &mut lo, &mut hi) {
            return false;
        }
        if !Self::axis_update(self.minimum.z, self.maximum.z, ray.origin.z, ray.direction.z, &mut lo, &mut hi) {
            return false;
        }
        lo.lt(&hi)
    }

    /// Intersect the running interval with one axis slab.
    fn axis_update(minc: i64, maxc: i64, o: i64, d: i64, lo: &mut Rat, hi: &mut Rat) -> (pass:
        bool)
        requires
            -box_bound() <= minc <= box_bound(),
            -box_bound() <= maxc <= box_bound(),
            -coord_bound() <= o <= coord_bound(),
            -coord_bound() <= d <= coord_bound(),
            rat_wf(*old(lo)),
            rat_wf(*old(hi)),
        ensures
            pass == axis_pass(minc as int, maxc as int, o as int, d as int),
            *final(lo) == axis_lo(minc as int, maxc as int, o as int, d as int, *old(lo)),
            *final(hi) == axis_hi(minc as int, maxc as int, o as int, d as int, *old(hi)),
            rat_wf(*final(lo)),
            rat_wf(*final(hi)),
    {
        if d == 0 {
            minc <= o && o <= maxc
        } else if d > 0 {
            let axlo: Rat = Rat::new(minc - o, d);
            let axhi: Rat = Rat::new(maxc - o, d);
            *lo = lo.max(&axlo);
            *hi = hi.min(&axhi);
            true
        } else {
            let axlo: Rat = Rat::new(o - maxc, -d);
            let axhi: Rat = Rat::new(o - minc, -d);
            *lo = lo.max(&axlo);
            *hi = hi.min(&axhi);
            true
        }
    }

    /// Create the box that encapsulates this box and another.
    pub fn surrounding_box(&self, other: &Aabb) -> (r: Aabb)
        ensures
            r == spec_surrounding_box(*self, *other),
    {
        Aabb { minimum: self.minimum.min(&other.minimum), maximum: self.maximum.max(&other.maximum) }
    }
}

/// The union box contains both of its arguments entirely.
pub proof fn lemma_surrounding_box_contains(a: Aabb, b: Aabb)
    ensures
        box_contains_box(spec_surrounding_box(a, b), a),
        box_contains_box(spec_surrounding_box(a, b), b),
{
}

/// The union of boxes does not depend on their order.
pub proof fn lemma_surrounding_box_commutes(a: Aabb, b: Aabb)
    ensures
        spec_surrounding_box(a, b) == spec_surrounding_box(b, a),
{
}

/// The union of boxes can be grouped either way.
pub proof fn lemma_surrounding_box_associates(a: Aabb, b: Aabb, c: Aabb)
    ensures
        spec_surrounding_box(spec_surrounding_box(a, b), c) == spec_surrounding_box(
            a,
            spec_surrounding_box(b, c),
        ),
{
}

/// The union box is the least box containing both: any box that contains
/// the two contains their union.
pub proof fn lemma_surrounding_box_least(a: Aabb, b: Aabb, c: Aabb)
    requires
        box_contains_box(c, a),
        box_contains_box(c, b),
    ensures
        box_contains_box(c, spec_surrounding_box(a, b)),
{
}

/// One axis admits a parameter whose point lies strictly inside its slab.
proof fn lemma_axis_admits(minc: int, maxc: int, o: int, d: int, t: Rat, lo: Rat, hi: Rat)
    requires
        -box_bound() <= minc <= box_bound(),
        -box_bound() <= maxc <= box_bound(),
        -coord_bound() <= o <= coord_bound(),
        -coord_bound() <= d <= coord_bound(),
        rat_wf(t),
        rat_wf(lo),
        rat_wf(hi),
        minc * t.den < o * t.den + t.num * d,
        o * t.den + t.num * d < maxc * t.den,
        rat_lt(lo, t),
        rat_lt(t, hi),
    ensures
        axis_pass(minc, maxc, o, d),
        rat_lt(axis_lo(minc, maxc, o, d, lo), t),
        rat_lt(t, axis_hi(minc, maxc, o, d, hi)),
{
    if d == 0 {
        assert(minc < o && o < maxc) by (nonlinear_arith)
            requires
                t.den > 0,
                minc * t.den < o * t.den,
                o * t.den < maxc * t.den,
        ;
    } else if d > 0 {
        assert((minc - o) * t.den < t.num * d) by (nonlinear_arith)
            requires
                minc * t.den < o * t.den + t.num * d,
        ;
        assert(t.num * d < (maxc - o) * t.den) by (nonlinear_arith)
            requires
                o * t.den + t.num * d < maxc * t.den,
        ;
        assert(rat_lt(mk_rat(minc - o, d), t));
        assert(rat_lt(t, mk_rat(maxc - o, d)));
    } else {
        assert((o - maxc) * t.den < t.num * (-d)) by (nonlinear_arith)
            requires
                o * t.den + t.num * d < maxc * t.den,
        ;
        assert(t.num * (-d) < (o - minc) * t.den) by (nonlinear_arith)
            requires
                minc * t.den < o * t.den + t.num * d,
        ;
        assert(rat_lt(mk_rat(o - maxc, -d), t));
        assert(rat_lt(t, mk_rat(o - minc, -d)));
    }
}

/// The slab test is complete: a ray parameter strictly inside the query
/// window whose point lies strictly inside the box on every axis is never
/// rejected. In particular a zero direction component, whose reciprocal a
/// floating-point formulation would take to infinity, cannot wrongly
/// reject a ray that runs inside the slab.
pub proof fn lemma_slab_hit_complete(
    b: Aabb,
    origin: Vec3,
    dir: Vec3,
    t_min: Rat,
    t_max: Rat,
    t: Rat,
)
    requires
        aabb_wf(b),
        vec_wf(origin),
        vec_wf(dir),
        rat_wf(t_min),
        rat_wf(t_max),
        rat_wf(t),
        rat_lt(t_min, t),
        rat_lt(t, t_max),
        b.minimum.x * t.den < origin.x * t.den + t.num * dir.x,
        origin.x * t.den + t.num * dir.x < b.maximum.x * t.den,
        b.minimum.y * t.den < origin.y * t.den + t.num * dir.y,
        origin.y * t.den + t.num * dir.y < b.maximum.y * t.den,
        b.minimum.z * t.den < origin.z * t.den + t.num * dir.z,
        origin.z * t.den + t.num * dir.z < b.maximum.z * t.den,
    ensures
        slab_hit(b, origin, dir, t_min, t_max),
{
    let lo1 = axis_lo(b.minimum.x as int, b.maximum.x as int, origin.x as int, dir.x as int, t_min);
    let hi1 = axis_hi(b.minimum.x as int, b.maximum.x as int, origin.x as int, dir.x as int, t_max);
    let lo2 = axis_lo(b.minimum.y as int, b.maximum.y as int, origin.y as int, dir.y as int, lo1);
    let hi2 = axis_hi(b.minimum.y as int, b.maximum.y as int, origin.y as int, dir.y as int, hi1);
    let lo3 = axis_lo(b.minimum.z as int, b.maximum.z as int, origin.z as int, dir.z as int, lo2);
    let hi3 = axis_hi(b.minimum.z as int, b.maximum.z as int, origin.z as int, dir.z as int, hi2);
    lemma_axis_wf(
        b.minimum.x as int,
        b.maximum.x as int,
        origin.x as int,
        dir.x as int,
        t_min,
        t_max,
    );
    lemma_axis_wf(b.minimum.y as int, b.maximum.y as int, origin.y as int, dir.y as int, lo1, hi1);
    lemma_axis_wf(b.minimum.z as int, b.maximum.z as int, origin.z as int, dir.z as int, lo2, hi2);
    lemma_axis_admits(
        b.minimum.x as int,
        b.maximum.x as int,
        origin.x as int,
        dir.x as int,
        t,
        t_min,
        t_max,
    );
    lemma_axis_admits(
        b.minimum.y as int,
        b.maximum.y as int,
        origin.y as int,
        dir.y as int,
        t,
        lo1,
        hi1,
    );
    lemma_axis_admits(
        b.minimum.z as int,
        b.maximum.z as int,
        origin.z as int,
        dir.z as int,
        t,
        lo2,
        hi2,
    );
    crate::rat::lemma_rat_lt_trans(lo3, t, hi3);
}

} // verus!
