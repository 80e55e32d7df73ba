//! Spheres.
//!
//! The ray-sphere equation is quadratic in the ray parameter. Its roots are
//! generally irrational, so the parameter returned is the exact rational
//! `(-b - isqrt(b^2 - a*c)) / a` with the integer square root rounded down;
//! everything about that value is stated exactly.

use vstd::prelude::*;

use crate::aabb::{mk_rat, Aabb};
use crate::hitable::{hit_wf, HitRecord};
use crate::materials::Material;
use crate::rat::{lemma_abs_mul_bound, rat_le, rat_lt, rat_wf, rat_zero, Rat};
use crate::ray::{ray_wf, spec_point_at, Ray};
use crate::vec3::{coord_bound, vec_wf, Dir3, Vec3};

verus! {

/// `r` is the integer square root of `n`, rounded down.
pub open spec fn is_sqrt_floor(n: int, r: int) -> bool {
    0 <= r && r * r <= n && n < (r + 1) * (r + 1)
}

/// The integer square root of `n`, rounded down.
pub open spec fn sqrt_floor(n: int) -> int {
    choose|r: int| is_sqrt_floor(n, r)
}

/// The rounded-down square root is unique.
proof fn lemma_sqrt_floor_unique(n: int, r1: int, r2: int)
    requires
        is_sqrt_floor(n, r1),
        is_sqrt_floor(n, r2),
    ensures
        r1 == r2,
{
    assert(!(r1 < r2) && !(r2 < r1)) by (nonlinear_arith)
        requires
            0 <= r1,
            0 <= r2,
            r1 * r1 <= n,
            n < (r1 + 1) * (r1 + 1),
            r2 * r2 <= n,
            n < (r2 + 1) * (r2 + 1),
    ;
}

/// The integer square root, by bisection.
fn isqrt(n: i128) -> (r: i128)
    requires
        0 <= n < 0x4000_0000_0000_0000_0000_0000_0000_0000,
    ensures
        is_sqrt_floor(n as int, r as int),
        r == sqrt_floor(n as int),
{
    let mut lo: i128 = 0;
    let mut hi: i128 = 0x8000_0000_0000_0000;
    proof {
        assert((0x8000_0000_0000_0000 as int) * (0x8000_0000_0000_0000 as int)
            == 0x4000_0000_0000_0000_0000_0000_0000_0000) by (nonlinear_arith);
    }
    while lo + 1 < hi
        invariant
            0 <= lo < hi <= 0x8000_0000_0000_0000,
            lo * lo <= n,
            n < hi * hi,
        decreases hi - lo,
    {
        let mid: i128 = lo + (hi - lo) / 2;
        proof {
            lemma_abs_mul_bound(
                mid as int,
                mid as int,
                0x8000_0000_0000_0000,
                0x8000_0000_0000_0000,
            );
        }
        if mid * mid <= n {
            lo = mid;
        } else {
            hi = mid;
        }
    }
    proof {
        assert(is_sqrt_floor(n as int, lo as int));
        assert(is_sqrt_floor(n as int, sqrt_floor(n as int)));
        lemma_sqrt_floor_unique(n as int, lo as int, sqrt_floor(n as int));
    }
    lo
}

/// A sphere with a fixed-point center and radius.
#[derive(Clone, Copy, PartialEq, Eq, Structural, Debug)]
pub struct Sphere {
    pub center: Vec3,
    pub radius: i64,
    pub material: Material,
}

/// Well-formed: center in range and a positive bounded radius.
pub open spec fn sphere_wf(s: Sphere) -> bool {
    vec_wf(s.center) && 0 < s.radius <= coord_bound()
}

/// The tight box around the sphere: center plus and minus the radius.
pub open spec fn spec_sphere_bounding_box(s: Sphere) -> Aabb {
    Aabb {
        minimum: Vec3 {
            x: (s.center.x - s.radius) as i64,
            y: (s.center.y - s.radius) as i64,
            z: (s.center.z - s.radius) as i64,
        },
        maximum: Vec3 {
            x: (s.center.x + s.radius) as i64,
            y: (s.center.y + s.radius) as i64,
            z: (s.center.z + s.radius) as i64,
        },
    }
}

/// A root is taken when it is positive and strictly inside the window.
pub open spec fn sphere_accepts(t: Rat, t_min: Rat, t_max: Rat) -> bool {
    rat_lt(rat_zero(), t) && rat_lt(t_min, t) && rat_lt(t, t_max)
}

/// The record for an accepted sphere root: the hit point on the ray, and
/// the vector from the center to that point as both normals.
///
/// The spherical surface parametrization is trigonometric, not exact; the
/// texture lookup that would consume it is an outside collaborator, so both
/// surface coordinates are fixed at zero here.
pub open spec fn sphere_record(s: Sphere, ray: Ray, t: Rat) -> HitRecord {
    let pt = spec_point_at(ray, t);
    let n = Dir3 {
        x: (pt.x - s.center.x * pt.den) as i128,
        y: (pt.y - s.center.y * pt.den) as i128,
        z: (pt.z - s.center.z * pt.den) as i128,
    };
    HitRecord {
        parameter: t,
        u: rat_zero(),
        v: rat_zero(),
        point: pt,
        geometric_normal: n,
        shading_normal: n,
        material: s.material,
    }
}

/// The leading coefficient of the ray-sphere quadratic: the squared
/// length of the direction.
pub open spec fn sphere_qa(ray: Ray) -> int {
    let dx = ray.direction.x as int;
    let dy = ray.direction.y as int;
    let dz = ray.direction.z as int;
    dx * dx + dy * dy + dz * dz
}

/// Half the linear coefficient: the direction against the offset from the
/// center to the origin.
pub open spec fn sphere_qb(s: Sphere, ray: Ray) -> int {
    (ray.origin.x - s.center.x) * ray.direction.x + (ray.origin.y - s.center.y) * ray.direction.y
        + (ray.origin.z - s.center.z) * ray.direction.z
}

/// The constant coefficient: the squared center offset less the squared
/// radius.
pub open spec fn sphere_qc(s: Sphere, ray: Ray) -> int {
    let ocx = ray.origin.x - s.center.x;
    let ocy = ray.origin.y - s.center.y;
    let ocz = ray.origin.z - s.center.z;
    ocx * ocx + ocy * ocy + ocz * ocz - s.radius * s.radius
}

/// The discriminant of the ray-sphere quadratic.
pub open spec fn sphere_discriminant(s: Sphere, ray: Ray) -> int {
    sphere_qb(s, ray) * sphere_qb(s, ray) - sphere_qa(ray) * sphere_qc(s, ray)
}

/// The exact sphere hit: solve `a*t^2 + 2*b*t + c = 0`, reject a negative
/// discriminant, and take the smaller acceptable root first.
pub open spec fn sphere_hit_spec(s: Sphere, ray: Ray, t_min: Rat, t_max: Rat) -> Option<
    HitRecord,
> {
    let a = sphere_qa(ray);
    let b = sphere_qb(s, ray);
    let disc = sphere_discriminant(s, ray);
    if disc < 0 {
        None
    } else {
        let sd = sqrt_floor(disc);
        let t1 = mk_rat(-b - sd, a);
        let t2 = mk_rat(-b + sd, a);
        if sphere_accepts(t1, t_min, t_max) {
            Some(sphere_record(s, ray, t1))
        } else if sphere_accepts(t2, t_min, t_max) {
            Some(sphere_record(s, ray, t2))
        } else {
            None
        }
    }
}

impl Sphere {
    /// Create a new sphere to place into the world.
    pub fn new(center: Vec3, radius: i64, material: Material) -> (r: Sphere)
        requires
            sphere_wf(Sphere { center, radius, material }),
        ensures
            r == (Sphere { center, radius, material }),
    {
        Sphere { center, radius, material }
    }

    /// The tight box around the sphere.
    pub fn bounding_box(&self) -> (r: Aabb)
        requires
            sphere_wf(*self),
        ensures
            r == spec_sphere_bounding_box(*self),
    {
        let rv = Vec3::splat(self.radius);
        Aabb::from(self.center.sub(&rv), self.center.add(&rv))
    }

    /// Determine whether the ray intersects the sphere, exactly up to the
    /// rounded-down square root of the discriminant.
    pub fn hit(&self, ray: &Ray, position_min: &Rat, position_max: &Rat) -> (r: Option<HitRecord>)
        requires
            sphere_wf(*self),
            ray_wf(*ray),
            rat_wf(*position_min),
            rat_wf(*position_max),
        ensures
            r == sphere_hit_spec(*self, *ray, *position_min, *position_max),
    {
        let oc: Vec3 = ray.origin.sub(&self.center);
        let a: i128 = ray.direction.dot(&ray.direction);
        let b: i128 = oc.dot(&ray.direction);
        proof {
            lemma_abs_mul_bound(self.radius as int, self.radius as int, 0x80000, 0x80000);
            lemma_abs_mul_bound(ray.direction.x as int, ray.direction.x as int, 0x80000, 0x80000);
            lemma_abs_mul_bound(ray.direction.y as int, ray.direction.y as int, 0x80000, 0x80000);
            lemma_abs_mul_bound(ray.direction.z as int, ray.direction.z as int, 0x80000, 0x80000);
            lemma_abs_mul_bound(oc.x as int, ray.direction.x as int, 0x100000, 0x80000);
            lemma_abs_mul_bound(oc.y as int, ray.direction.y as int, 0x100000, 0x80000);
            lemma_abs_mul_bound(oc.z as int, ray.direction.z as int, 0x100000, 0x80000);
            lemma_abs_mul_bound(oc.x as int, oc.x as int, 0x100000, 0x100000);
            lemma_abs_mul_bound(oc.y as int, oc.y as int, 0x100000, 0x100000);
            lemma_abs_mul_bound(oc.z as int, oc.z as int, 0x100000, 0x100000);
        }
        let rr: i128 = (self.radius as i128) * (self.radius as i128);
        let c: i128 = oc.dot(&oc) - rr;
        proof {
            assert(a > 0) by (nonlinear_arith)
                requires
                    !(ray.direction.x == 0 && ray.direction.y == 0 && ray.direction.z == 0),
                    a == ray.direction.x * ray.direction.x + ray.direction.y * ray.direction.y
                        + ray.direction.z * ray.direction.z,
            ;
            lemma_abs_mul_bound(b as int, b as int, 0x400_0000_0000, 0x400_0000_0000);
            lemma_abs_mul_bound(a as int, c as int, 0x400_0000_0000, 0x400_0000_0000);
        }
        let disc: i128 = b * b - a * c;
        if disc < 0 {
            return None;
        }
        let sd: i128 = isqrt(disc);
        proof {
            assert(sd <= 0x4000_0000_0000_0000) by (nonlinear_arith)
                requires
                    0 <= sd,
                    sd * sd <= disc,
                    disc <= 0x1000_0000_0000_0000_0000_0000_0000_0000,
            ;
        }
        let t1 = Rat { num: -b - sd, den: a };
        let t2 = Rat { num: -b + sd, den: a };
        let zero = Rat::from_int(0);
        if zero.lt(&t1) && position_min.lt(&t1) && t1.lt(position_max) {
            Some(self.make_record(ray, &t1))
        } else if zero.lt(&t2) && position_min.lt(&t2) && t2.lt(position_max) {
            Some(self.make_record(ray, &t2))
        } else {
            None
        }
    }

    /// Build the record for an accepted root.
    fn make_record(&self, ray: &Ray, t: &Rat) -> (r: HitRecord)
        requires
            sphere_wf(*self),
            ray_wf(*ray),
            rat_wf(*t),
        ensures
            r == sphere_record(*self, *ray, *t),
    {
        let pt = ray.point_at_parameter(t);
        proof {
            lemma_abs_mul_bound(ray.origin.x as int, t.den as int, 0x80000, 0x8000_0000_0000_0000);
            lemma_abs_mul_bound(ray.origin.y as int, t.den as int, 0x80000, 0x8000_0000_0000_0000);
            lemma_abs_mul_bound(ray.origin.z as int, t.den as int, 0x80000, 0x8000_0000_0000_0000);
            lemma_abs_mul_bound(t.num as int, ray.direction.x as int, 0x8000_0000_0000_0000, 0x80000);
            lemma_abs_mul_bound(t.num as int, ray.direction.y as int, 0x8000_0000_0000_0000, 0x80000);
            lemma_abs_mul_bound(t.num as int, ray.direction.z as int, 0x8000_0000_0000_0000, 0x80000);
            lemma_abs_mul_bound(self.center.x as int, pt.den as int, 0x80000, 0x8000_0000_0000_0000);
            lemma_abs_mul_bound(self.center.y as int, pt.den as int, 0x80000, 0x8000_0000_0000_0000);
            lemma_abs_mul_bound(self.center.z as int, pt.den as int, 0x80000, 0x8000_0000_0000_0000);
        }
        let n = Dir3 {
            x: pt.x - (self.center.x as i128) * pt.den,
            y: pt.y - (self.center.y as i128) * pt.den,
            z: pt.z - (self.center.z as i128) * pt.den,
        };
        HitRecord {
            parameter: *t,
            u: Rat::from_int(0),
            v: Rat::from_int(0),
            point: pt,
            geometric_normal: n,
            shading_normal: n,
            material: self.material,
        }
    }
}

/// A sphere hit is well-formed and lies within the query window.
pub proof fn lemma_sphere_hit_props(s: Sphere, ray: Ray, t_min: Rat, t_max: Rat)
    requires
        sphere_wf(s),
        ray_wf(ray),
        rat_wf(t_min),
        rat_wf(t_max),
    ensures
        sphere_hit_spec(s, ray, t_min, t_max) matches Some(h) ==> hit_wf(h) && rat_le(
            t_min,
            h.parameter,
        ) && rat_le(h.parameter, t_max),
{
    let ocx = ray.origin.x - s.center.x;
    let ocy = ray.origin.y - s.center.y;
    let ocz = ray.origin.z - s.center.z;
    let dx = ray.direction.x as int;
    let dy = ray.direction.y as int;
    let dz = ray.direction.z as int;
    let a = dx * dx + dy * dy + dz * dz;
    let b = ocx * dx + ocy * dy + ocz * dz;
    let c = ocx * ocx + ocy * ocy + ocz * ocz - s.radius * s.radius;
    let disc = b * b - a * c;
    lemma_abs_mul_bound(dx, dx, 0x80000, 0x80000);
    lemma_abs_mul_bound(dy, dy, 0x80000, 0x80000);
    lemma_abs_mul_bound(dz, dz, 0x80000, 0x80000);
    lemma_abs_mul_bound(ocx, dx, 0x100000, 0x80000);
    lemma_abs_mul_bound(ocy, dy, 0x100000, 0x80000);
    lemma_abs_mul_bound(ocz, dz, 0x100000, 0x80000);
    assert(a > 0) by (nonlinear_arith)
        requires
            !(dx == 0 && dy == 0 && dz == 0),
            a == dx * dx + dy * dy + dz * dz,
    ;
    if disc >= 0 {
        let sd = sqrt_floor(disc);
        lemma_abs_mul_bound(ocx, ocx, 0x100000, 0x100000);
        lemma_abs_mul_bound(ocy, ocy, 0x100000, 0x100000);
        lemma_abs_mul_bound(ocz, ocz, 0x100000, 0x100000);
        lemma_abs_mul_bound(s.radius as int, s.radius as int, 0x80000, 0x80000);
        lemma_abs_mul_bound(b, b, 0x400_0000_0000, 0x400_0000_0000);
        lemma_abs_mul_bound(a, c, 0x400_0000_0000, 0x400_0000_0000);
        assert(is_sqrt_floor(disc, sd)) by {
            assert(disc < 0x1000_0000_0000_0000_0000_0000_0000_0000);
            lemma_sqrt_exists(disc);
        }
        assert(sd <= 0x4000_0000_0000_0000) by (nonlinear_arith)
            requires
                0 <= sd,
                sd * sd <= disc,
                disc <= 0x1000_0000_0000_0000_0000_0000_0000_0000,
        ;
        let t1 = mk_rat(-b - sd, a);
        let t2 = mk_rat(-b + sd, a);
        assert(rat_wf(t1));
        assert(rat_wf(t2));
        if sphere_accepts(t1, t_min, t_max) || sphere_accepts(t2, t_min, t_max) {
            let t = if sphere_accepts(t1, t_min, t_max) {
                t1
            } else {
                t2
            };
            let pt = spec_point_at(ray, t);
            lemma_abs_mul_bound(ray.origin.x as int, t.den as int, 0x80000, 0x8000_0000_0000_0000);
            lemma_abs_mul_bound(ray.origin.y as int, t.den as int, 0x80000, 0x8000_0000_0000_0000);
            lemma_abs_mul_bound(ray.origin.z as int, t.den as int, 0x80000, 0x8000_0000_0000_0000);
            lemma_abs_mul_bound(t.num as int, ray.direction.x as int, 0x8000_0000_0000_0000, 0x80000);
            lemma_abs_mul_bound(t.num as int, ray.direction.y as int, 0x8000_0000_0000_0000, 0x80000);
            lemma_abs_mul_bound(t.num as int, ray.direction.z as int, 0x8000_0000_0000_0000, 0x80000);
            lemma_abs_mul_bound(s.center.x as int, pt.den as int, 0x80000, 0x8000_0000_0000_0000);
            lemma_abs_mul_bound(s.center.y as int, pt.den as int, 0x80000, 0x8000_0000_0000_0000);
            lemma_abs_mul_bound(s.center.z as int, pt.den as int, 0x80000, 0x8000_0000_0000_0000);
        }
    }
}

/// Every nonnegative number in range has a rounded-down square root.
proof fn lemma_sqrt_exists(n: int)
    requires
        0 <= n < 0x4000_0000_0000_0000_0000_0000_0000_0000,
    ensures
        is_sqrt_floor(n, sqrt_floor(n)),
    decreases n,
{
    if n == 0 {
        assert(is_sqrt_floor(0, 0));
    } else {
        lemma_sqrt_exists(n - 1);
        let r = sqrt_floor(n - 1);
        assert(is_sqrt_floor(n - 1, r));
        if n < (r + 1) * (r + 1) {
            assert(is_sqrt_floor(n, r));
        } else {
            assert((r + 1) * (r + 1) <= n);
            assert(n - 1 < (r + 1) * (r + 1));
            assert(n < ((r + 1) + 1) * ((r + 1) + 1)) by (nonlinear_arith)
                requires
                    0 <= r,
                    n == (r + 1) * (r + 1),
            ;
            assert(is_sqrt_floor(n, r + 1));
        }
    }
    assert(is_sqrt_floor(n, sqrt_floor(n)));
}

/// Bounds on the quadratic's parts: when the discriminant is nonnegative
/// both roots' numerators and the denominator stay comparable.
proof fn lemma_sphere_root_bounds(s: Sphere, ray: Ray)
    requires
        sphere_wf(s),
        ray_wf(ray),
        sphere_discriminant(s, ray) >= 0,
    ensures
        0 < sphere_qa(ray) < 0x8000_0000_0000_0000,
        is_sqrt_floor(sphere_discriminant(s, ray), sqrt_floor(sphere_discriminant(s, ray))),
        -0x8000_0000_0000_0000 <= -sphere_qb(s, ray) - sqrt_floor(sphere_discriminant(s, ray))
            < 0x8000_0000_0000_0000,
        -0x8000_0000_0000_0000 <= -sphere_qb(s, ray) + sqrt_floor(sphere_discriminant(s, ray))
            < 0x8000_0000_0000_0000,
{
    let a = sphere_qa(ray);
    let b = sphere_qb(s, ray);
    let c = sphere_qc(s, ray);
    let disc = sphere_discriminant(s, ray);
    let ocx = ray.origin.x - s.center.x;
    let ocy = ray.origin.y - s.center.y;
    let ocz = ray.origin.z - s.center.z;
    let dx = ray.direction.x as int;
    let dy = ray.direction.y as int;
    let dz = ray.direction.z as int;
    lemma_abs_mul_bound(dx, dx, 0x80000, 0x80000);
    lemma_abs_mul_bound(dy, dy, 0x80000, 0x80000);
    lemma_abs_mul_bound(dz, dz, 0x80000, 0x80000);
    lemma_abs_mul_bound(ocx, dx, 0x100000, 0x80000);
    lemma_abs_mul_bound(ocy, dy, 0x100000, 0x80000);
    lemma_abs_mul_bound(ocz, dz, 0x100000, 0x80000);
    lemma_abs_mul_bound(ocx, ocx, 0x100000, 0x100000);
    lemma_abs_mul_bound(ocy, ocy, 0x100000, 0x100000);
    lemma_abs_mul_bound(ocz, ocz, 0x100000, 0x100000);
    lemma_abs_mul_bound(s.radius as int, s.radius as int, 0x80000, 0x80000);
    lemma_abs_mul_bound(b, b, 0x400_0000_0000, 0x400_0000_0000);
    lemma_abs_mul_bound(a, c, 0x400_0000_0000, 0x400_0000_0000);
    assert(a > 0) by (nonlinear_arith)
        requires
            !(dx == 0 && dy == 0 && dz == 0),
            a == dx * dx + dy * dy + dz * dz,
    ;
    lemma_sqrt_exists(disc);
    let sd = sqrt_floor(disc);
    assert(sd <= 0x4000_0000_0000_0000) by (nonlinear_arith)
        requires
            0 <= sd,
            sd * sd <= disc,
            disc <= 0x1000_0000_0000_0000_0000_0000_0000_0000,
    ;
}

/// The square of a sum of two terms.
proof fn lemma_square_of_sum(p: int, q: int)
    ensures
        (p + q) * (p + q) == p * p + 2 * (p * q) + q * q,
{
    assert((p + q) * (p + q) == p * p + 2 * (p * q) + q * q) by (nonlinear_arith);
}

/// The square of a product, regrouped into squares.
proof fn lemma_prod_square(a: int, b: int)
    ensures
        (a * b) * (a * b) == (a * a) * (b * b),
{
    assert((a * b) * (a * b) == (a * a) * (b * b)) by (nonlinear_arith);
}

/// A product of two products, with the inner factors exchanged.
proof fn lemma_prod_shuffle(a: int, b: int, c: int, d: int)
    ensures
        (a * b) * (c * d) == (a * d) * (c * b),
{
    assert((a * b) * (c * d) == (a * d) * (c * b)) by (nonlinear_arith);
}

/// The square of a product, regrouped with the factors swapped.
proof fn lemma_prod_square_swapped(a: int, b: int)
    ensures
        (a * b) * (a * b) == (b * b) * (a * a),
{
    assert((a * b) * (a * b) == (b * b) * (a * a)) by (nonlinear_arith);
}

/// An exact root of the quadratic zeroes its value; with the constant
/// split as `cc + rr`, the `rr` part is what remains.
proof fn lemma_quadratic_root(aa: int, bb: int, cc: int, rr: int, sd: int, num: int)
    requires
        sd * sd == bb * bb - aa * cc,
        num == -bb - sd || num == -bb + sd,
    ensures
        (cc + rr) * (aa * aa) + 2 * (bb * (num * aa)) + aa * (num * num) == rr * (aa * aa),
{
    assert(cc * aa + 2 * (bb * num) + num * num == 0) by (nonlinear_arith)
        requires
            sd * sd == bb * bb - aa * cc,
            num == -bb - sd || num == -bb + sd,
    ;
    assert((cc + rr) * (aa * aa) + 2 * (bb * (num * aa)) + aa * (num * num) == rr * (aa * aa))
        by (nonlinear_arith)
        requires
            cc * aa + 2 * (bb * num) + num * num == 0,
    ;
}

/// One axis of the squared offset, expanded and regrouped.
proof fn lemma_axis_square(oc: int, d: int, num: int, den: int)
    ensures
        (oc * den + num * d) * (oc * den + num * d) == (oc * oc) * (den * den) + 2 * ((oc * d) * (
        num * den)) + (d * d) * (num * num),
{
    lemma_square_of_sum(oc * den, num * d);
    lemma_prod_square(oc, den);
    lemma_prod_shuffle(oc, den, num, d);
    lemma_prod_square_swapped(num, d);
}

/// A sum of three terms distributes over a common factor.
proof fn lemma_distribute3(x: int, y: int, z: int, w: int)
    ensures
        (x + y + z) * w == x * w + y * w + z * w,
{
    assert((x + y + z) * w == x * w + y * w + z * w) by (nonlinear_arith);
}

/// When the discriminant is a perfect square the accepted root is an
/// exact solution, and the hit point lies exactly on the sphere: its
/// squared offset from the center is the squared radius, scaled by the
/// squared denominator.
pub proof fn lemma_sphere_hit_on_sphere(s: Sphere, ray: Ray, t_min: Rat, t_max: Rat)
    requires
        sphere_wf(s),
        ray_wf(ray),
        rat_wf(t_min),
        rat_wf(t_max),
        sqrt_floor(sphere_discriminant(s, ray)) * sqrt_floor(sphere_discriminant(s, ray))
            == sphere_discriminant(s, ray),
    ensures
        sphere_hit_spec(s, ray, t_min, t_max) matches Some(h) ==> (h.point.x - s.center.x
            * h.point.den) * (h.point.x - s.center.x * h.point.den) + (h.point.y - s.center.y
            * h.point.den) * (h.point.y - s.center.y * h.point.den) + (h.point.z - s.center.z
            * h.point.den) * (h.point.z - s.center.z * h.point.den) == s.radius * s.radius * (
        h.point.den * h.point.den),
{
    let a = sphere_qa(ray);
    let b = sphere_qb(s, ray);
    let c = sphere_qc(s, ray);
    let disc = sphere_discriminant(s, ray);
    if disc >= 0 {
        lemma_sphere_root_bounds(s, ray);
        let sd = sqrt_floor(disc);
        let t1 = mk_rat(-b - sd, a);
        let t2 = mk_rat(-b + sd, a);
        if sphere_accepts(t1, t_min, t_max) || sphere_accepts(t2, t_min, t_max) {
            let t = if sphere_accepts(t1, t_min, t_max) {
                t1
            } else {
                t2
            };
            let num = t.num as int;
            let den = t.den as int;
            assert(den == a);
            assert(num == -b - sd || num == -b + sd);
            let pt = spec_point_at(ray, t);
            lemma_abs_mul_bound(ray.origin.x as int, den, 0x80000, 0x8000_0000_0000_0000);
            lemma_abs_mul_bound(ray.origin.y as int, den, 0x80000, 0x8000_0000_0000_0000);
            lemma_abs_mul_bound(ray.origin.z as int, den, 0x80000, 0x8000_0000_0000_0000);
            lemma_abs_mul_bound(num, ray.direction.x as int, 0x8000_0000_0000_0000, 0x80000);
            lemma_abs_mul_bound(num, ray.direction.y as int, 0x8000_0000_0000_0000, 0x80000);
            lemma_abs_mul_bound(num, ray.direction.z as int, 0x8000_0000_0000_0000, 0x80000);
            let ocx = ray.origin.x - s.center.x;
            let ocy = ray.origin.y - s.center.y;
            let ocz = ray.origin.z - s.center.z;
            let dx = ray.direction.x as int;
            let dy = ray.direction.y as int;
            let dz = ray.direction.z as int;
            let rr = s.radius * s.radius;
            assert(pt.x - s.center.x * pt.den == ocx * den + num * dx) by (nonlinear_arith)
                requires
                    pt.x == ray.origin.x * den + num * dx,
                    pt.den == den,
                    ocx == ray.origin.x - s.center.x,
            ;
            assert(pt.y - s.center.y * pt.den == ocy * den + num * dy) by (nonlinear_arith)
                requires
                    pt.y == ray.origin.y * den + num * dy,
                    pt.den == den,
                    ocy == ray.origin.y - s.center.y,
            ;
            assert(pt.z - s.center.z * pt.den == ocz * den + num * dz) by (nonlinear_arith)
                requires
                    pt.z == ray.origin.z * den + num * dz,
                    pt.den == den,
                    ocz == ray.origin.z - s.center.z,
            ;
            lemma_axis_square(ocx, dx, num, den);
            lemma_axis_square(ocy, dy, num, den);
            lemma_axis_square(ocz, dz, num, den);
            lemma_distribute3(ocx * ocx, ocy * ocy, ocz * ocz, den * den);
            lemma_distribute3(ocx * dx, ocy * dy, ocz * dz, num * den);
            lemma_distribute3(dx * dx, dy * dy, dz * dz, num * num);
            assert(a == dx * dx + dy * dy + dz * dz);
            assert(b == ocx * dx + ocy * dy + ocz * dz);
            assert(c == ocx * ocx + ocy * ocy + ocz * ocz - rr);
            assert((c + rr) * (den * den) == (ocx * ocx + ocy * ocy + ocz * ocz) * (den * den))
                by (nonlinear_arith)
                requires
                    c == ocx * ocx + ocy * ocy + ocz * ocz - rr,
            ;
            assert((ocx * den + num * dx) * (ocx * den + num * dx) + (ocy * den + num * dy) * (ocy
                * den + num * dy) + (ocz * den + num * dz) * (ocz * den + num * dz) == (c + rr) * (
            den * den) + 2 * (b * (num * den)) + a * (num * num));
            lemma_quadratic_root(a, b, c, rr, sd, num);
            assert((c + rr) * (den * den) + 2 * (b * (num * den)) + a * (num * num) == rr * (den
                * den));
        }
    }
}

} // verus!
