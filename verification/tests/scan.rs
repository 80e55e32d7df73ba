//! The spatial index against the brute-force scan, and the render-loop
//! helpers.

use tracer_core::bvh::BVH;
use tracer_core::hitable::Shape;
use tracer_core::integrator::{path_continues, roulette_applies, BounceEvent, Scattering};
use tracer_core::materials::{Empty, Light, Material};
use tracer_core::plane::{Axis, Plane};
use tracer_core::prism::Prism;
use tracer_core::rat::Rat;
use tracer_core::ray::Ray;
use tracer_core::sphere::Sphere;
use tracer_core::triangle::{Triangle, TriangleMesh};
use tracer_core::utils::format_time;
use tracer_core::vec3::Vec3;
use tracer_core::world::World;

fn wide_window() -> (Rat, Rat) {
    (Rat::new(1, 1000), Rat::new(1_000_000, 1))
}

/// Two disjoint spheres of one world unit radius at two and minus two
/// world units on the x axis, at 512 fixed-point units per world unit.
fn two_spheres() -> Vec<Shape> {
    vec![
        Shape::Sphere(Sphere::new(
            Vec3::new(-1024, 0, 0),
            512,
            Material::Surface(1),
        )),
        Shape::Sphere(Sphere::new(Vec3::new(1024, 0, 0), 512, Material::Surface(2))),
    ]
}

#[test]
fn bvh_reports_the_right_sphere() {
    let world = World {
        objects: two_spheres(),
    };
    let bvh = BVH::new(two_spheres()).expect("two shapes build a tree");
    let ray = Ray::new(Vec3::new(1024, 0, 2048), Vec3::new(0, 0, -512), 0);
    let (tmin, tmax) = wide_window();
    let from_tree = bvh.hit(&ray, &tmin, &tmax).expect("the ray points at the right sphere");
    let from_scan = world.hit(&ray, &tmin, &tmax).expect("the scan sees the same sphere");
    assert!(from_tree.parameter.eq_value(&Rat::new(3, 1)));
    assert!(from_scan.parameter.eq_value(&Rat::new(3, 1)));
    assert_eq!(from_tree.material, Material::Surface(2));
    assert_eq!(from_scan.material, Material::Surface(2));
    assert_eq!(from_tree, from_scan);
}

#[test]
fn bvh_of_an_empty_scene_is_refused() {
    assert!(BVH::new(Vec::new()).is_none());
}

/// A scene of well over one hundred primitives: a grid of spheres, a box
/// and two triangles.
fn grid_scene() -> Vec<Shape> {
    let mut shapes: Vec<Shape> = Vec::new();
    for i in 0..5i64 {
        for j in 0..5i64 {
            for k in 0..5i64 {
                let center = Vec3::new((i - 2) * 3000, (j - 2) * 3000, (k - 2) * 3000);
                let radius = 500 + 200 * ((i + j + k) % 3);
                let id = (i * 25 + j * 5 + k) as u32;
                shapes.push(Shape::Sphere(Sphere::new(center, radius, Material::Surface(id))));
            }
        }
    }
    let prism = Prism::new(
        Vec3::new(8000, -1000, -1000),
        Vec3::new(9000, 1000, 1000),
        Material::Surface(200),
    );
    for s in prism.hitables.objects {
        shapes.push(s);
    }
    shapes.push(Shape::Triangle(Triangle::new(
        Vec3::new(-9000, -9000, -9000),
        Vec3::new(-3000, -9000, -9000),
        Vec3::new(-9000, -3000, -9000),
        Vec3::new(0, 0, 512),
        Vec3::new(0, 0, 512),
        Vec3::new(0, 0, 512),
        Material::Surface(201),
    )));
    shapes.push(Shape::Triangle(Triangle::new(
        Vec3::new(3000, 3000, 9000),
        Vec3::new(9000, 3000, 9000),
        Vec3::new(3000, 9000, 9000),
        Vec3::new(0, 0, -512),
        Vec3::new(0, 0, -512),
        Vec3::new(0, 0, -512),
        Material::Surface(202),
    )));
    shapes
}

struct Lcg {
    state: u64,
}

impl Lcg {
    fn next(&mut self) -> u64 {
        self.state = self
            .state
            .wrapping_mul(6364136223846793005)
            .wrapping_add(1442695040888963407);
        self.state >> 33
    }

    fn coord(&mut self, spread: i64) -> i64 {
        (self.next() % (2 * spread as u64 + 1)) as i64 - spread
    }
}

#[test]
fn bvh_matches_brute_force_on_many_shapes_and_rays() {
    let shapes = grid_scene();
    assert!(shapes.len() >= 100);
    let world = World { objects: shapes };
    let bvh = BVH::new(grid_scene()).expect("the grid builds a tree");
    let (tmin, tmax) = wide_window();
    let mut rng = Lcg { state: 9 };
    let mut hits: usize = 0;
    for _ in 0..60 {
        let origin = Vec3::new(rng.coord(12000), rng.coord(12000), rng.coord(12000));
        let mut direction = Vec3::new(rng.coord(512), rng.coord(512), rng.coord(512));
        if direction.x == 0 && direction.y == 0 && direction.z == 0 {
            direction = Vec3::new(0, 0, -512);
        }
        let ray = Ray::new(origin, direction, 0);
        let from_tree = bvh.hit(&ray, &tmin, &tmax);
        let from_scan = world.hit(&ray, &tmin, &tmax);
        match (from_tree, from_scan) {
            (None, None) => {}
            (Some(a), Some(b)) => {
                hits += 1;
                assert!(a.parameter.eq_value(&b.parameter));
                assert_eq!(a.material, b.material);
                assert!(tmin.le(&a.parameter) && a.parameter.le(&tmax));
            }
            _ => panic!("the tree and the scan must agree on whether anything was hit"),
        }
    }
    assert!(hits > 0, "the sample rays must exercise some hits");
}

#[test]
fn prism_faces_answer_like_a_box() {
    let prism = Prism::new(
        Vec3::new(-512, -512, -2048),
        Vec3::new(512, 512, -1024),
        Material::Surface(3),
    );
    let bbox = prism.bounding_box().unwrap();
    assert_eq!(bbox.minimum, Vec3::new(-512, -512, -2048));
    assert_eq!(bbox.maximum, Vec3::new(512, 512, -1024));
    let ray = Ray::new(Vec3::new(0, 0, 0), Vec3::new(0, 0, -512), 0);
    let (tmin, tmax) = wide_window();
    let hit = prism.hit(&ray, &tmin, &tmax).expect("the ray enters through the near face");
    // The near face lies two world units away.
    assert!(hit.parameter.eq_value(&Rat::new(2, 1)));
    // Its outward normal points back at the ray.
    assert_eq!(hit.geometric_normal.z, 1);
}

#[test]
fn world_bounding_box_unions_everything() {
    let empty = World::new();
    assert!(empty.bounding_box().is_none());
    let world = World {
        objects: two_spheres(),
    };
    let bbox = world.bounding_box().unwrap();
    assert_eq!(bbox.minimum, Vec3::new(-1536, -512, -512));
    assert_eq!(bbox.maximum, Vec3::new(1536, 512, 512));
    let bvh = BVH::new(two_spheres()).unwrap();
    let tree_box = bvh.bounding_box().unwrap();
    assert_eq!(tree_box.minimum, bbox.minimum);
    assert_eq!(tree_box.maximum, bbox.maximum);
}

#[test]
fn a_light_in_the_scene_stops_the_path() {
    let emit = Vec3::new(2000, 2000, 2000);
    let shapes = vec![Shape::Plane(Plane::new(
        Axis::XZ,
        -512,
        512,
        -512,
        512,
        1024,
        Material::Light(Light::new(emit)),
    ))];
    let bvh = BVH::new(shapes).unwrap();
    let ray = Ray::new(Vec3::new(0, 2048, 0), Vec3::new(0, -512, 0), 0);
    let (tmin, tmax) = wide_window();
    let hit = bvh.hit(&ray, &tmin, &tmax).expect("the ray must reach the light");
    assert_eq!(hit.material.scatter(), None);
    assert_eq!(hit.material.emitted(&ray, &hit), emit);
}

#[test]
fn empty_material_never_scatters() {
    let m = Material::Empty(Empty::new());
    assert!(m.scatter().is_none());
}

#[test]
fn path_control_follows_the_walk() {
    let diffuse = BounceEvent::Surface(Scattering::Diffuse);
    let specular = BounceEvent::Surface(Scattering::Specular);
    let absorbed = BounceEvent::Surface(Scattering::Absorbed);
    let miss = BounceEvent::Miss;
    assert!(path_continues(0, 50, &diffuse, false));
    assert!(path_continues(2, 50, &specular, true));
    assert!(!path_continues(50, 50, &diffuse, false));
    assert!(!path_continues(3, 50, &miss, false));
    assert!(!path_continues(1, 50, &absorbed, false));
    assert!(!path_continues(4, 50, &diffuse, true));
    assert!(path_continues(4, 50, &diffuse, false));
    assert!(!roulette_applies(3));
    assert!(roulette_applies(4));
}

#[test]
fn mesh_scans_its_triangles() {
    let m = Material::Surface(9);
    let triangles = vec![
        Triangle::new(
            Vec3::new(0, 0, -512),
            Vec3::new(512, 0, -512),
            Vec3::new(0, 512, -512),
            Vec3::new(0, 0, 512),
            Vec3::new(0, 0, 512),
            Vec3::new(0, 0, 512),
            m,
        ),
        Triangle::new(
            Vec3::new(0, 0, -1024),
            Vec3::new(512, 0, -1024),
            Vec3::new(0, 512, -1024),
            Vec3::new(0, 0, 512),
            Vec3::new(0, 0, 512),
            Vec3::new(0, 0, 512),
            m,
        ),
    ];
    let mesh = TriangleMesh::new(triangles, m);
    let ray = Ray::new(Vec3::new(128, 128, 0), Vec3::new(0, 0, -512), 0);
    let (tmin, tmax) = wide_window();
    let hit = mesh.hit(&ray, &tmin, &tmax).expect("the ray passes through both triangles");
    // The nearer triangle wins.
    assert!(hit.parameter.eq_value(&Rat::new(1, 1)));
    let bbox = mesh.bounding_box().unwrap();
    assert_eq!(bbox.minimum, Vec3::new(-1, -1, -1025));
    assert_eq!(bbox.maximum, Vec3::new(513, 513, -511));
}

#[test]
fn format_time_pads_and_carries() {
    assert_eq!(format_time(0), "00:00:00");
    assert_eq!(format_time(61), "00:01:01");
    assert_eq!(format_time(3661), "01:01:01");
    assert_eq!(format_time(45296), "12:34:56");
    assert_eq!(format_time(86399), "23:59:59");
    assert_eq!(format_time(362461), "100:41:01");
}
