//! Fixed-point vectors.
//!
//! Scene points and ray directions are triples of `i64` fixed-point
//! coordinates bounded by [`coord_bound`]; the caller picks the scale.
//! Normals come out of intersection tests unnormalized and may carry large
//! exact numerators, so they get the wide type [`Dir3`]. A hit point is a
//! rational triple [`RatPoint`] sharing one positive denominator.

use vstd::prelude::*;

verus! {

/// The smaller of two integers.
pub open spec fn imin(a: int, b: int) -> int {
    if a <= b {
        a
    } else {
        b
    }
}

/// The larger of two integers.
pub open spec fn imax(a: int, b: int) -> int {
    if a <= b {
        b
    } else {
        a
    }
}

/// Magnitude bound on scene coordinates and direction components: `2^19`.
pub open spec fn coord_bound() -> int {
    0x80000
}

/// Magnitude bound on the wide components of normals and hit points: `2^100`.
pub open spec fn wide_bound() -> int {
    0x10000000000000000000000000
}

/// A fixed-point point or direction.
#[derive(Clone, Copy, PartialEq, Eq, Structural, Debug)]
pub struct Vec3 {
    pub x: i64,
    pub y: i64,
    pub z: i64,
}

/// Well-formed: every component bounded by [`coord_bound`].
pub open spec fn vec_wf(v: Vec3) -> bool {
    -coord_bound() <= v.x <= coord_bound() && -coord_bound() <= v.y <= coord_bound()
        && -coord_bound() <= v.z <= coord_bound()
}

/// The component of `v` on the given axis (0, 1 or 2).
pub open spec fn vec_axis(v: Vec3, axis: int) -> int {
    if axis == 0 {
        v.x as int
    } else if axis == 1 {
        v.y as int
    } else {
        v.z as int
    }
}

impl Vec3 {
    /// Build a vector from its components.
    pub fn new(x: i64, y: i64, z: i64) -> (r: Vec3)
        ensures
            r == (Vec3 { x, y, z }),
    {
        Vec3 { x, y, z }
    }

    /// The zero vector.
    pub fn zero() -> (r: Vec3)
        ensures
            r == (Vec3 { x: 0i64, y: 0i64, z: 0i64 }),
    {
        Vec3 { x: 0, y: 0, z: 0 }
    }

    /// The vector with the same value on every axis.
    pub fn splat(s: i64) -> (r: Vec3)
        ensures
            r == (Vec3 { x: s, y: s, z: s }),
    {
        Vec3 { x: s, y: s, z: s }
    }

    /// Component-wise difference.
    pub fn sub(&self, other: &Vec3) -> (r: Vec3)
        requires
            vec_wf(*self),
            vec_wf(*other),
        ensures
            r.x == self.x - other.x,
            r.y == self.y - other.y,
            r.z == self.z - other.z,
    {
        Vec3 { x: self.x - other.x, y: self.y - other.y, z: self.z - other.z }
    }

    /// Component-wise sum.
    pub fn add(&self, other: &Vec3) -> (r: Vec3)
        requires
            vec_wf(*self),
            vec_wf(*other),
        ensures
            r.x == self.x + other.x,
            r.y == self.y + other.y,
            r.z == self.z + other.z,
    {
        Vec3 { x: self.x + other.x, y: self.y + other.y, z: self.z + other.z }
    }

    /// Component-wise minimum.
    pub fn min(&self, other: &Vec3) -> (r: Vec3)
        ensures
            r.x == imin(self.x as int, other.x as int),
            r.y == imin(self.y as int, other.y as int),
            r.z == imin(self.z as int, other.z as int),
    {
        Vec3 {
            x: if self.x <= other.x {
                self.x
            } else {
                other.x
            },
            y: if self.y <= other.y {
                self.y
            } else {
                other.y
            },
            z: if self.z <= other.z {
                self.z
            } else {
                other.z
            },
        }
    }

    /// Component-wise maximum.
    pub fn max(&self, other: &Vec3) -> (r: Vec3)
        ensures
            r.x == imax(self.x as int, other.x as int),
            r.y == imax(self.y as int, other.y as int),
            r.z == imax(self.z as int, other.z as int),
    {
        Vec3 {
            x: if self.x <= other.x {
                other.x
            } else {
                self.x
            },
            y: if self.y <= other.y {
                other.y
            } else {
                self.y
            },
            z: if self.z <= other.z {
                other.z
            } else {
                self.z
            },
        }
    }

    /// The component on the given axis.
    pub fn get(&self, axis: usize) -> (r: i64)
        requires
            axis < 3,
        ensures
            r == vec_axis(*self, axis as int),
    {
        if axis == 0 {
            self.x
        } else if axis == 1 {
            self.y
        } else {
            self.z
        }
    }

    /// Exact dot product of two bounded vectors, in `i128`.
    pub fn dot(&self, other: &Vec3) -> (r: i128)
        requires
            -2 * coord_bound() <= self.x <= 2 * coord_bound(),
            -2 * coord_bound() <= self.y <= 2 * coord_bound(),
            -2 * coord_bound() <= self.z <= 2 * coord_bound(),
            -2 * coord_bound() <= other.x <= 2 * coord_bound(),
            -2 * coord_bound() <= other.y <= 2 * coord_bound(),
            -2 * coord_bound() <= other.z <= 2 * coord_bound(),
        ensures
            r == self.x * other.x + self.y * other.y + self.z * other.z,
    {
        proof {
            crate::rat::lemma_abs_mul_bound(self.x as int, other.x as int, 0x100000, 0x100000);
            crate::rat::lemma_abs_mul_bound(self.y as int, other.y as int, 0x100000, 0x100000);
            crate::rat::lemma_abs_mul_bound(self.z as int, other.z as int, 0x100000, 0x100000);
        }
        (self.x as i128) * (other.x as i128) + (self.y as i128) * (other.y as i128) + (
        self.z as i128) * (other.z as i128)
    }
}

/// Exact cross product of two bounded vectors, as a wide normal.
pub fn cross128(a: &Vec3, b: &Vec3) -> (r: Dir3)
    requires
        -2 * coord_bound() <= a.x <= 2 * coord_bound(),
        -2 * coord_bound() <= a.y <= 2 * coord_bound(),
        -2 * coord_bound() <= a.z <= 2 * coord_bound(),
        -2 * coord_bound() <= b.x <= 2 * coord_bound(),
        -2 * coord_bound() <= b.y <= 2 * coord_bound(),
        -2 * coord_bound() <= b.z <= 2 * coord_bound(),
    ensures
        r.x == a.y * b.z - a.z * b.y,
        r.y == a.z * b.x - a.x * b.z,
        r.z == a.x * b.y - a.y * b.x,
        dir_wf(r),
        -0x200_0000_0000 <= r.x <= 0x200_0000_0000,
        -0x200_0000_0000 <= r.y <= 0x200_0000_0000,
        -0x200_0000_0000 <= r.z <= 0x200_0000_0000,
{
    proof {
        crate::rat::lemma_abs_mul_bound(a.y as int, b.z as int, 0x100000, 0x100000);
        crate::rat::lemma_abs_mul_bound(a.z as int, b.y as int, 0x100000, 0x100000);
        crate::rat::lemma_abs_mul_bound(a.z as int, b.x as int, 0x100000, 0x100000);
        crate::rat::lemma_abs_mul_bound(a.x as int, b.z as int, 0x100000, 0x100000);
        crate::rat::lemma_abs_mul_bound(a.x as int, b.y as int, 0x100000, 0x100000);
        crate::rat::lemma_abs_mul_bound(a.y as int, b.x as int, 0x100000, 0x100000);
    }
    Dir3 {
        x: (a.y as i128) * (b.z as i128) - (a.z as i128) * (b.y as i128),
        y: (a.z as i128) * (b.x as i128) - (a.x as i128) * (b.z as i128),
        z: (a.x as i128) * (b.y as i128) - (a.y as i128) * (b.x as i128),
    }
}

/// Exact dot product of a bounded vector with a moderately wide normal.
pub fn dot_dir(a: &Vec3, d: &Dir3) -> (r: i128)
    requires
        -2 * coord_bound() <= a.x <= 2 * coord_bound(),
        -2 * coord_bound() <= a.y <= 2 * coord_bound(),
        -2 * coord_bound() <= a.z <= 2 * coord_bound(),
        -0x2_0000_0000_0000 <= d.x <= 0x2_0000_0000_0000,
        -0x2_0000_0000_0000 <= d.y <= 0x2_0000_0000_0000,
        -0x2_0000_0000_0000 <= d.z <= 0x2_0000_0000_0000,
    ensures
        r == a.x * d.x + a.y * d.y + a.z * d.z,
{
    proof {
        crate::rat::lemma_abs_mul_bound(a.x as int, d.x as int, 0x100000, 0x2_0000_0000_0000);
        crate::rat::lemma_abs_mul_bound(a.y as int, d.y as int, 0x100000, 0x2_0000_0000_0000);
        crate::rat::lemma_abs_mul_bound(a.z as int, d.z as int, 0x100000, 0x2_0000_0000_0000);
    }
    (a.x as i128) * d.x + (a.y as i128) * d.y + (a.z as i128) * d.z
}

/// An unnormalized surface normal with exact wide components.
#[derive(Clone, Copy, PartialEq, Eq, Structural, Debug)]
pub struct Dir3 {
    pub x: i128,
    pub y: i128,
    pub z: i128,
}

/// Well-formed: every component bounded by [`wide_bound`].
pub open spec fn dir_wf(d: Dir3) -> bool {
    -wide_bound() <= d.x <= wide_bound() && -wide_bound() <= d.y <= wide_bound()
        && -wide_bound() <= d.z <= wide_bound()
}

impl Dir3 {
    /// Widen a fixed-point vector into a normal.
    pub fn from_vec(v: &Vec3) -> (r: Dir3)
        ensures
            r.x == v.x,
            r.y == v.y,
            r.z == v.z,
            dir_wf(r),
    {
        Dir3 { x: v.x as i128, y: v.y as i128, z: v.z as i128 }
    }

    /// The opposite normal.
    pub fn neg(&self) -> (r: Dir3)
        requires
            dir_wf(*self),
        ensures
            r.x == -self.x,
            r.y == -self.y,
            r.z == -self.z,
            dir_wf(r),
    {
        Dir3 { x: -self.x, y: -self.y, z: -self.z }
    }

    /// Exact dot product with a fixed-point direction.
    pub fn dot_vec(&self, v: &Vec3) -> (r: i128)
        requires
            dir_wf(*self),
            vec_wf(*v),
        ensures
            r == self.x * v.x + self.y * v.y + self.z * v.z,
    {
        proof {
            crate::rat::lemma_abs_mul_bound(self.x as int, v.x as int, 0x10000000000000000000000000, 0x80000);
            crate::rat::lemma_abs_mul_bound(self.y as int, v.y as int, 0x10000000000000000000000000, 0x80000);
            crate::rat::lemma_abs_mul_bound(self.z as int, v.z as int, 0x10000000000000000000000000, 0x80000);
        }
        self.x * (v.x as i128) + self.y * (v.y as i128) + self.z * (v.z as i128)
    }
}

/// A hit point with exact rational coordinates `(x, y, z) / den`.
#[derive(Clone, Copy, PartialEq, Eq, Structural, Debug)]
pub struct RatPoint {
    pub x: i128,
    pub y: i128,
    pub z: i128,
    pub den: i128,
}

/// The coordinate of a rational point on the given axis (its numerator).
pub open spec fn point_axis(p: RatPoint, axis: int) -> int {
    if axis == 0 {
        p.x as int
    } else if axis == 1 {
        p.y as int
    } else {
        p.z as int
    }
}

/// Well-formed: positive denominator, components bounded by [`wide_bound`].
pub open spec fn point_wf(p: RatPoint) -> bool {
    0 < p.den < crate::rat::rat_bound() && -wide_bound() <= p.x <= wide_bound() && -wide_bound()
        <= p.y <= wide_bound() && -wide_bound() <= p.z <= wide_bound()
}

} // verus!
