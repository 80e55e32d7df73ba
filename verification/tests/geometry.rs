//! Exact geometry: boxes, rays, rectangles, spheres, triangles.
//!
//! World coordinates are fixed-point with 512 units to one world unit in
//! most of these tests.

use tracer_core::aabb::Aabb;
use tracer_core::hitable::Shape;
use tracer_core::materials::{Empty, Light, Material};
use tracer_core::plane::{Axis, Plane};
use tracer_core::rat::Rat;
use tracer_core::ray::{offset_bits, Ray};
use tracer_core::sphere::Sphere;
use tracer_core::transformations::Translate;
use tracer_core::triangle::Triangle;
use tracer_core::vec3::Vec3;

fn wide_window() -> (Rat, Rat) {
    (Rat::new(1, 1000), Rat::new(1_000_000, 1))
}

#[test]
fn surrounding_box_contains_both() {
    let a = Aabb::from(Vec3::new(0, 0, 0), Vec3::new(10, 20, 30));
    let b = Aabb::from(Vec3::new(-5, 5, -5), Vec3::new(5, 25, 5));
    let u = a.surrounding_box(&b);
    assert_eq!(u.minimum, Vec3::new(-5, 0, -5));
    assert_eq!(u.maximum, Vec3::new(10, 25, 30));
    assert!(u.minimum.x <= a.minimum.x && a.maximum.x <= u.maximum.x);
    assert!(u.minimum.y <= a.minimum.y && a.maximum.y <= u.maximum.y);
    assert!(u.minimum.z <= a.minimum.z && a.maximum.z <= u.maximum.z);
    assert!(u.minimum.x <= b.minimum.x && b.maximum.x <= u.maximum.x);
    assert!(u.minimum.y <= b.minimum.y && b.maximum.y <= u.maximum.y);
    assert!(u.minimum.z <= b.minimum.z && b.maximum.z <= u.maximum.z);
}

#[test]
fn surrounding_box_commutes_and_associates() {
    let a = Aabb::from(Vec3::new(0, 0, 0), Vec3::new(10, 20, 30));
    let b = Aabb::from(Vec3::new(-5, 5, -5), Vec3::new(5, 25, 5));
    let c = Aabb::from(Vec3::new(7, -9, 2), Vec3::new(8, 40, 3));
    assert_eq!(a.surrounding_box(&b), b.surrounding_box(&a));
    assert_eq!(
        a.surrounding_box(&b).surrounding_box(&c),
        a.surrounding_box(&b.surrounding_box(&c))
    );
}

#[test]
fn surrounding_box_identity_is_the_empty_box() {
    let a = Aabb::from(Vec3::new(-3, 4, -5), Vec3::new(6, 7, 8));
    let u = Aabb::new().surrounding_box(&a);
    assert_eq!(u.minimum, a.minimum);
    assert_eq!(u.maximum, a.maximum);
}

#[test]
fn area_and_longest_axis() {
    let a = Aabb::from(Vec3::new(0, 0, 0), Vec3::new(2, 3, 4));
    // 2 * (2*3 + 3*4 + 4*2) = 52
    assert_eq!(a.area(), 52);
    assert_eq!(a.longest_axis(), 2);
    let b = Aabb::from(Vec3::new(0, 0, 0), Vec3::new(9, 3, 4));
    assert_eq!(b.longest_axis(), 0);
    let c = Aabb::from(Vec3::new(0, 0, 0), Vec3::new(3, 5, 4));
    assert_eq!(c.longest_axis(), 1);
}

#[test]
fn slab_test_axis_aligned_ray_inside_slab_hits() {
    // A direction component of exactly zero must not reject a ray whose
    // origin lies inside that slab.
    let b = Aabb::from(Vec3::new(-10, -10, -30), Vec3::new(10, 10, -20));
    let ray = Ray::new(Vec3::new(0, 0, 0), Vec3::new(0, 0, -1), 0);
    let (tmin, tmax) = wide_window();
    assert!(b.hit(&ray, &tmin, &tmax));
}

#[test]
fn slab_test_axis_aligned_ray_outside_slab_misses() {
    let b = Aabb::from(Vec3::new(-10, -10, -30), Vec3::new(10, 10, -20));
    let ray = Ray::new(Vec3::new(50, 0, 0), Vec3::new(0, 0, -1), 0);
    let (tmin, tmax) = wide_window();
    assert!(!b.hit(&ray, &tmin, &tmax));
}

#[test]
fn slab_test_window_excludes_box_behind_the_window() {
    let b = Aabb::from(Vec3::new(-10, -10, -30), Vec3::new(10, 10, -20));
    let ray = Ray::new(Vec3::new(0, 0, 0), Vec3::new(0, 0, -1), 0);
    // The box lies at parameters [20, 30]; a window ending at 10 misses it.
    let tmin = Rat::new(1, 1000);
    let tmax = Rat::new(10, 1);
    assert!(!b.hit(&ray, &tmin, &tmax));
}

#[test]
fn sphere_head_on_hit_has_exact_parameter_point_and_normal() {
    // A sphere of radius one half, one world unit in front of the origin,
    // at 512 fixed-point units to the world unit.
    let s = Sphere::new(Vec3::new(0, 0, -512), 256, Material::Empty(Empty::new()));
    let ray = Ray::new(Vec3::new(0, 0, 0), Vec3::new(0, 0, -512), 0);
    let (tmin, tmax) = wide_window();
    let hit = s.hit(&ray, &tmin, &tmax).expect("head-on ray must hit");
    // t is exactly one half.
    assert!(hit.parameter.eq_value(&Rat::new(1, 2)));
    // The returned parameter lies within the query window.
    assert!(tmin.le(&hit.parameter) && hit.parameter.le(&tmax));
    // The hit point is exactly (0, 0, -0.5) in world units.
    assert_eq!(hit.point.x, 0);
    assert_eq!(hit.point.y, 0);
    assert_eq!(hit.point.z, -256 * hit.point.den);
    // The normal points back along +z.
    assert_eq!(hit.geometric_normal.x, 0);
    assert_eq!(hit.geometric_normal.y, 0);
    assert!(hit.geometric_normal.z > 0);
}

#[test]
fn sphere_prefers_the_smaller_root() {
    let s = Sphere::new(Vec3::new(0, 0, -1024), 512, Material::Empty(Empty::new()));
    let ray = Ray::new(Vec3::new(0, 0, 0), Vec3::new(0, 0, -512), 0);
    let (tmin, tmax) = wide_window();
    let hit = s.hit(&ray, &tmin, &tmax).expect("the ray passes through the sphere");
    // The shell is entered at one world unit, not left at three.
    assert!(hit.parameter.eq_value(&Rat::new(1, 1)));
}

#[test]
fn sphere_seen_from_inside_reports_the_exit() {
    let s = Sphere::new(Vec3::new(0, 0, 0), 512, Material::Empty(Empty::new()));
    let ray = Ray::new(Vec3::new(0, 0, 0), Vec3::new(0, 0, -512), 0);
    let (tmin, tmax) = wide_window();
    let hit = s.hit(&ray, &tmin, &tmax).expect("the shell lies ahead in every direction");
    // The root behind the origin is rejected; the exit at one unit stands.
    assert!(hit.parameter.eq_value(&Rat::new(1, 1)));
}

#[test]
fn sphere_behind_the_origin_is_rejected() {
    let s = Sphere::new(Vec3::new(0, 0, 512), 256, Material::Empty(Empty::new()));
    let ray = Ray::new(Vec3::new(0, 0, 0), Vec3::new(0, 0, -512), 0);
    let (tmin, tmax) = wide_window();
    assert!(s.hit(&ray, &tmin, &tmax).is_none());
}

#[test]
fn rectangle_hit_has_exact_parameter_and_surface_coordinates() {
    let p = Plane::new(
        Axis::XY,
        -512,
        512,
        -512,
        512,
        -1024,
        Material::Empty(Empty::new()),
    );
    let ray = Ray::new(Vec3::new(256, -256, 0), Vec3::new(0, 0, -512), 0);
    let (tmin, tmax) = wide_window();
    let hit = p.hit(&ray, &tmin, &tmax).expect("ray into the rectangle must hit");
    assert!(hit.parameter.eq_value(&Rat::new(2, 1)));
    // u = (256 - (-512)) / 1024 = 3/4, v = (-256 - (-512)) / 1024 = 1/4.
    assert!(hit.u.eq_value(&Rat::new(3, 4)));
    assert!(hit.v.eq_value(&Rat::new(1, 4)));
    assert_eq!(hit.geometric_normal.z, 1);
}

#[test]
fn rectangle_parallel_ray_misses() {
    let p = Plane::new(
        Axis::XY,
        -512,
        512,
        -512,
        512,
        -1024,
        Material::Empty(Empty::new()),
    );
    let ray = Ray::new(Vec3::new(0, 0, 0), Vec3::new(512, 0, 0), 0);
    let (tmin, tmax) = wide_window();
    assert!(p.hit(&ray, &tmin, &tmax).is_none());
}

#[test]
fn triangle_hit_has_exact_barycentrics() {
    let m = Material::Empty(Empty::new());
    let t = Triangle::new(
        Vec3::new(0, 0, -512),
        Vec3::new(512, 0, -512),
        Vec3::new(0, 512, -512),
        Vec3::new(0, 0, 512),
        Vec3::new(0, 0, 512),
        Vec3::new(0, 0, 512),
        m,
    );
    let ray = Ray::new(Vec3::new(128, 128, 0), Vec3::new(0, 0, -512), 0);
    let (tmin, tmax) = wide_window();
    let hit = t.hit(&ray, &tmin, &tmax).expect("ray into the triangle must hit");
    assert!(hit.parameter.eq_value(&Rat::new(1, 1)));
    assert!(hit.u.eq_value(&Rat::new(1, 4)));
    assert!(hit.v.eq_value(&Rat::new(1, 4)));
    assert!(hit.geometric_normal.z > 0);
}

#[test]
fn triangle_rejects_points_outside_the_barycentric_range() {
    let m = Material::Empty(Empty::new());
    let t = Triangle::new(
        Vec3::new(0, 0, -512),
        Vec3::new(512, 0, -512),
        Vec3::new(0, 512, -512),
        Vec3::new(0, 0, 512),
        Vec3::new(0, 0, 512),
        Vec3::new(0, 0, 512),
        m,
    );
    // Outside the hypotenuse: u + v would exceed one.
    let ray = Ray::new(Vec3::new(400, 400, 0), Vec3::new(0, 0, -512), 0);
    let (tmin, tmax) = wide_window();
    assert!(t.hit(&ray, &tmin, &tmax).is_none());
}

#[test]
fn flipped_shape_negates_both_normals() {
    let m = Material::Empty(Empty::new());
    let p = Plane::new(Axis::XY, -512, 512, -512, 512, -1024, m);
    let flipped = tracer_core::hitable::FlipNormals::of(Shape::Plane(p));
    let ray = Ray::new(Vec3::new(0, 0, 0), Vec3::new(0, 0, -512), 0);
    let (tmin, tmax) = wide_window();
    let hit = flipped.hit(&ray, &tmin, &tmax).expect("flip keeps the hit");
    assert_eq!(hit.geometric_normal.z, -1);
    assert_eq!(hit.shading_normal.z, -1);
}

#[test]
fn translate_shifts_the_geometry() {
    let m = Material::Empty(Empty::new());
    let s = Shape::Sphere(Sphere::new(Vec3::new(0, 0, -512), 256, m));
    let moved = Translate::new(Vec3::new(100, -50, 0), s);
    match moved {
        Shape::Sphere(sp) => {
            assert_eq!(sp.center, Vec3::new(100, -50, -512));
            assert_eq!(sp.radius, 256);
        }
        _ => panic!("translation must keep the shape's kind"),
    }
}

#[test]
fn light_emits_only_against_the_ray() {
    let emit = Vec3::new(1000, 900, 800);
    let m = Material::Light(Light::new(emit));
    let p = Plane::new(Axis::XZ, -512, 512, -512, 512, 0, m);
    let (tmin, tmax) = wide_window();
    // From above, looking down: the +y normal opposes the ray.
    let down = Ray::new(Vec3::new(0, 512, 0), Vec3::new(0, -512, 0), 0);
    let hit = p.hit(&down, &tmin, &tmax).expect("ray from above must hit");
    assert_eq!(m.scatter(), None);
    assert_eq!(m.emitted(&down, &hit), emit);
    // From below, looking up: the same normal now points along the ray.
    let up = Ray::new(Vec3::new(0, -512, 0), Vec3::new(0, 512, 0), 0);
    let hit_below = p.hit(&up, &tmin, &tmax).expect("ray from below must hit");
    assert_eq!(m.emitted(&up, &hit_below), Vec3::new(0, 0, 0));
}

#[test]
fn empty_material_absorbs() {
    let e = Empty::new();
    let m = Material::Empty(e);
    assert_eq!(m.scatter(), None);
    let surface = Material::Surface(7);
    assert_eq!(surface.scatter(), Some(7));
}

#[test]
fn offset_bits_wraps_like_the_machine() {
    assert_eq!(offset_bits(5, 3, false), 8);
    assert_eq!(offset_bits(5, 3, true), 2);
    assert_eq!(offset_bits(0xFFFF_FFFF, 1, false), 0);
    assert_eq!(offset_bits(0, 1, true), 0xFFFF_FFFF);
}

#[test]
fn rational_order_is_exact() {
    let half = Rat::new(1, 2);
    let two_quarters = Rat::new(2, 4);
    let third = Rat::new(1, 3);
    assert!(half.eq_value(&two_quarters));
    assert!(third.lt(&half));
    assert!(third.le(&half));
    assert!(!half.le(&third));
    let neg = Rat::new(-7, 3);
    assert!(neg.lt(&third));
    assert!(neg.max(&third).eq_value(&third));
    assert!(neg.min(&third).eq_value(&neg));
}
