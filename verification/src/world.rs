//! The flat scene: a list of shapes and the linear closest-hit scan.

use vstd::prelude::*;

use crate::aabb::{aabb_wf, spec_surrounding_box, Aabb};
use crate::hitable::{hit_wf, lemma_spec_hit_props, shape_wf, spec_bounding_box, spec_hit, HitRecord, Shape};
use crate::rat::{
    lemma_rat_le_trans, rat_eq, rat_le, rat_wf, Rat,
};
use crate::ray::{ray_wf, Ray};
use crate::vec3::Vec3;

verus! {

/// Of a hit so far and a candidate, the one to keep: the candidate wins
/// when it is at least as close.
pub open spec fn better_hit(cur: Option<HitRecord>, new: Option<HitRecord>) -> Option<
    HitRecord,
> {
    match new {
        None => cur,
        Some(n) => match cur {
            None => Some(n),
            Some(c) => if rat_le(n.parameter, c.parameter) {
                Some(n)
            } else {
                Some(c)
            },
        },
    }
}

/// The linear scan: fold every shape's hit into the closest one.
pub open spec fn brute_hit(shapes: Seq<Shape>, ray: Ray, t_min: Rat, t_max: Rat) -> Option<
    HitRecord,
>
    decreases shapes.len(),
{
    if shapes.len() == 0 {
        None
    } else {
        better_hit(
            brute_hit(shapes.drop_last(), ray, t_min, t_max),
            spec_hit(shapes.last(), ray, t_min, t_max),
        )
    }
}

/// Every shape of the sequence is well-formed.
pub open spec fn all_wf(shapes: Seq<Shape>) -> bool {
    forall|i: int| 0 <= i < shapes.len() ==> shape_wf(#[trigger] shapes[i])
}

/// The union of the bounding boxes of a sequence of shapes, starting from
/// the empty box.
pub open spec fn boxes_union(shapes: Seq<Shape>) -> Aabb
    decreases shapes.len(),
{
    if shapes.len() == 0 {
        Aabb {
            minimum: Vec3 { x: i64::MAX, y: i64::MAX, z: i64::MAX },
            maximum: Vec3 { x: i64::MIN, y: i64::MIN, z: i64::MIN },
        }
    } else {
        spec_surrounding_box(boxes_union(shapes.drop_last()), spec_bounding_box(shapes.last()))
    }
}

/// The World struct holds all of the objects in the scene.
pub struct World {
    pub objects: Vec<Shape>,
}

impl World {
    /// Create a new World to hold all of the objects in the scene.
    pub fn new() -> (r: World)
        ensures
            r.objects@ == Seq::<Shape>::empty(),
    {
        World { objects: Vec::new() }
    }

    /// Add an object to the instantiated world.
    pub fn add(&mut self, object: Shape)
        ensures
            final(self).objects@ == old(self).objects@.push(object),
    {
        self.objects.push(object);
    }

    /// Determine the closest hit of the given ray over all of the objects
    /// in the world, by a linear scan.
    pub fn hit(&self, ray: &Ray, position_min: &Rat, position_max: &Rat) -> (r: Option<HitRecord>)
        requires
            all_wf(self.objects@),
            ray_wf(*ray),
            rat_wf(*position_min),
            rat_wf(*position_max),
        ensures
            r == brute_hit(self.objects@, *ray, *position_min, *position_max),
            r matches Some(h) ==> rat_le(*position_min, h.parameter) && rat_le(
                h.parameter,
                *position_max,
            ),
    {
        proof {
            lemma_brute_hit_props(self.objects@, *ray, *position_min, *position_max);
        }
        let ghost objects = self.objects@;
        let mut result: Option<HitRecord> = None;
        let mut i: usize = 0;
        proof {
            assert(objects.subrange(0, 0) =~= Seq::<Shape>::empty());
        }
        while i < self.objects.len()
            invariant
                i <= self.objects.len(),
                objects == self.objects@,
                all_wf(objects),
                ray_wf(*ray),
                rat_wf(*position_min),
                rat_wf(*position_max),
                result == brute_hit(objects.subrange(0, i as int), *ray, *position_min, *position_max),
                result matches Some(c) ==> hit_wf(c),
            decreases self.objects.len() - i,
        {
            let h = self.objects[i].hit(ray, position_min, position_max);
            proof {
                lemma_spec_hit_props(objects[i as int], *ray, *position_min, *position_max);
                assert(objects.subrange(0, i + 1).drop_last() =~= objects.subrange(0, i as int));
                assert(objects.subrange(0, i + 1).last() == objects[i as int]);
            }
            if let Some(n) = h {
                result = match result {
                    None => Some(n),
                    Some(c) => if n.parameter.le(&c.parameter) {
                        Some(n)
                    } else {
                        Some(c)
                    },
                };
            }
            i = i + 1;
        }
        proof {
            assert(objects.subrange(0, objects.len() as int) =~= objects);
        }
        result
    }

    /// The box around everything in the world, absent when it is empty.
    pub fn bounding_box(&self) -> (r: Option<Aabb>)
        requires
            all_wf(self.objects@),
        ensures
            self.objects@.len() == 0 ==> r is None,
            self.objects@.len() > 0 ==> r == Some(boxes_union(self.objects@)),
    {
        if self.objects.len() == 0 {
            return None;
        }
        Some(world_boxes_union(&self.objects))
    }
}

/// Fold the union of the bounding boxes of a non-empty list of shapes.
pub fn world_boxes_union(objects: &Vec<Shape>) -> (r: Aabb)
    requires
        all_wf(objects@),
        objects@.len() > 0,
    ensures
        r == boxes_union(objects@),
        aabb_wf(r),
{
    let mut acc = Aabb::new();
    let mut i: usize = 0;
    proof {
        assert(objects@.subrange(0, 0) =~= Seq::<Shape>::empty());
    }
    while i < objects.len()
        invariant
            i <= objects.len(),
            all_wf(objects@),
            acc == boxes_union(objects@.subrange(0, i as int)),
            i > 0 ==> aabb_wf(acc),
            i == 0 ==> acc == boxes_union(Seq::<Shape>::empty()),
        decreases objects.len() - i,
    {
        let b = objects[i].bounding_box();
        acc = acc.surrounding_box(&b);
        proof {
            assert(objects@.subrange(0, i + 1).drop_last() =~= objects@.subrange(0, i as int));
            assert(objects@.subrange(0, i + 1).last() == objects@[i as int]);
        }
        i = i + 1;
    }
    proof {
        assert(objects@.subrange(0, objects@.len() as int) =~= objects@);
    }
    acc
}

/// A scanned hit is well-formed and lies within the query window.
pub proof fn lemma_brute_hit_props(shapes: Seq<Shape>, ray: Ray, t_min: Rat, t_max: Rat)
    requires
        all_wf(shapes),
        ray_wf(ray),
        rat_wf(t_min),
        rat_wf(t_max),
    ensures
        brute_hit(shapes, ray, t_min, t_max) matches Some(h) ==> hit_wf(h) && rat_le(
            t_min,
            h.parameter,
        ) && rat_le(h.parameter, t_max),
    decreases shapes.len(),
{
    if shapes.len() > 0 {
        lemma_brute_hit_props(shapes.drop_last(), ray, t_min, t_max);
        lemma_spec_hit_props(shapes.last(), ray, t_min, t_max);
    }
}

/// Keeping the closer of hits can be regrouped either way.
proof fn lemma_better_hit_assoc(a: Option<HitRecord>, b: Option<HitRecord>, c: Option<HitRecord>)
    requires
        a matches Some(x) ==> rat_wf(x.parameter),
        b matches Some(x) ==> rat_wf(x.parameter),
        c matches Some(x) ==> rat_wf(x.parameter),
    ensures
        better_hit(better_hit(a, b), c) == better_hit(a, better_hit(b, c)),
{
    if let Some(x) = a {
        if let Some(y) = b {
            if let Some(z) = c {
                if rat_le(y.parameter, x.parameter) && rat_le(z.parameter, y.parameter) {
                    lemma_rat_le_trans(z.parameter, y.parameter, x.parameter);
                }
                if !rat_le(y.parameter, x.parameter) && !rat_le(z.parameter, y.parameter) {
                    if rat_le(z.parameter, x.parameter) {
                        lemma_rat_le_trans(z.parameter, x.parameter, y.parameter);
                    }
                }
            }
        }
    }
}

/// The scan of two lists joined is the closer of the two scans.
pub proof fn lemma_brute_hit_append(s1: Seq<Shape>, s2: Seq<Shape>, ray: Ray, t_min: Rat, t_max: Rat)
    requires
        all_wf(s1),
        all_wf(s2),
        ray_wf(ray),
        rat_wf(t_min),
        rat_wf(t_max),
    ensures
        brute_hit(s1 + s2, ray, t_min, t_max) == better_hit(
            brute_hit(s1, ray, t_min, t_max),
            brute_hit(s2, ray, t_min, t_max),
        ),
    decreases s2.len(),
{
    if s2.len() == 0 {
        assert(s1 + s2 =~= s1);
    } else {
        let s2front = s2.drop_last();
        assert(all_wf(s2front)) by {
            assert(forall|i: int| 0 <= i < s2front.len() ==> s2front[i] == s2[i]);
        }
        lemma_brute_hit_append(s1, s2front, ray, t_min, t_max);
        assert((s1 + s2).drop_last() =~= s1 + s2front);
        assert((s1 + s2).last() == s2.last());
        lemma_brute_hit_props(s1, ray, t_min, t_max);
        lemma_brute_hit_props(s2front, ray, t_min, t_max);
        lemma_spec_hit_props(s2.last(), ray, t_min, t_max);
        lemma_better_hit_assoc(
            brute_hit(s1, ray, t_min, t_max),
            brute_hit(s2front, ray, t_min, t_max),
            spec_hit(s2.last(), ray, t_min, t_max),
        );
    }
}

/// What the scan finds: nothing exactly when no shape is hit; otherwise the
/// hit of one of the shapes, no farther than any other shape's hit.
pub proof fn lemma_brute_hit_characterization(shapes: Seq<Shape>, ray: Ray, t_min: Rat, t_max: Rat)
    requires
        all_wf(shapes),
        ray_wf(ray),
        rat_wf(t_min),
        rat_wf(t_max),
    ensures
        brute_hit(shapes, ray, t_min, t_max) is None <==> (forall|i: int|
            0 <= i < shapes.len() ==> spec_hit(#[trigger] shapes[i], ray, t_min, t_max) is None),
        brute_hit(shapes, ray, t_min, t_max) matches Some(h) ==> exists|i: int|
            0 <= i < shapes.len() && spec_hit(#[trigger] shapes[i], ray, t_min, t_max) == Some(h),
        brute_hit(shapes, ray, t_min, t_max) matches Some(h) ==> forall|i: int|
            0 <= i < shapes.len() && spec_hit(#[trigger] shapes[i], ray, t_min, t_max) is Some
                ==> rat_le(h.parameter, spec_hit(shapes[i], ray, t_min, t_max)->Some_0.parameter),
    decreases shapes.len(),
{
    if shapes.len() > 0 {
        let front = shapes.drop_last();
        assert(all_wf(front)) by {
            assert(forall|i: int| 0 <= i < front.len() ==> front[i] == shapes[i]);
        }
        lemma_brute_hit_characterization(front, ray, t_min, t_max);
        lemma_brute_hit_props(front, ray, t_min, t_max);
        lemma_spec_hit_props(shapes.last(), ray, t_min, t_max);
        assert(forall|i: int| 0 <= i < front.len() ==> shapes[i] == front[i]);
        assert(shapes[shapes.len() - 1] == shapes.last());
        match brute_hit(shapes, ray, t_min, t_max) {
            None => {},
            Some(h) => {
                let fr = brute_hit(front, ray, t_min, t_max);
                let lr = spec_hit(shapes.last(), ray, t_min, t_max);
                if fr is Some && lr is Some {
                    let hf = fr.unwrap();
                    let hl = lr.unwrap();
                    if rat_le(hl.parameter, hf.parameter) {
                        assert forall|i: int|
                            0 <= i < front.len() && spec_hit(
                                #[trigger] shapes[i],
                                ray,
                                t_min,
                                t_max,
                            ) is Some implies rat_le(
                            h.parameter,
                            spec_hit(shapes[i], ray, t_min, t_max)->Some_0.parameter,
                        ) by {
                            let g = spec_hit(shapes[i], ray, t_min, t_max)->Some_0;
                            assert(spec_hit(front[i], ray, t_min, t_max) == Some(g));
                            assert(rat_le(hf.parameter, g.parameter));
                            lemma_spec_hit_props(shapes[i], ray, t_min, t_max);
                            lemma_rat_le_trans(h.parameter, hf.parameter, g.parameter);
                        }
                    }
                }
            },
        }
    }
}

/// The scan does not depend on the order of the shapes: over two lists
/// holding the same shapes, it finds a hit for the same rays, at the same
/// ray parameter.
pub proof fn lemma_brute_hit_permutation(
    s1: Seq<Shape>,
    s2: Seq<Shape>,
    ray: Ray,
    t_min: Rat,
    t_max: Rat,
)
    requires
        all_wf(s1),
        ray_wf(ray),
        rat_wf(t_min),
        rat_wf(t_max),
        s1.to_multiset() == s2.to_multiset(),
    ensures
        brute_hit(s1, ray, t_min, t_max) is Some <==> brute_hit(s2, ray, t_min, t_max) is Some,
        brute_hit(s1, ray, t_min, t_max) matches Some(h1) ==> (brute_hit(
            s2,
            ray,
            t_min,
            t_max,
        ) matches Some(h2) ==> rat_eq(h1.parameter, h2.parameter)),
{
    broadcast use vstd::seq_lib::group_to_multiset_ensures;

    assert forall|i: int| 0 <= i < s2.len() implies shape_wf(#[trigger] s2[i]) by {
        assert(s2.contains(s2[i]));
        assert(s2.to_multiset().count(s2[i]) > 0);
        assert(s1.to_multiset().count(s2[i]) > 0);
        assert(s1.contains(s2[i]));
        let j = choose|j: int| 0 <= j < s1.len() && s1[j] == s2[i];
        assert(shape_wf(s1[j]));
    }
    lemma_brute_hit_characterization(s1, ray, t_min, t_max);
    lemma_brute_hit_characterization(s2, ray, t_min, t_max);
    if brute_hit(s1, ray, t_min, t_max) is None {
        assert forall|i: int|
            0 <= i < s2.len() implies spec_hit(#[trigger] s2[i], ray, t_min, t_max) is None by {
            assert(s2.contains(s2[i]));
            assert(s2.to_multiset().count(s2[i]) > 0);
            assert(s1.to_multiset().count(s2[i]) > 0);
            assert(s1.contains(s2[i]));
            let j = choose|j: int| 0 <= j < s1.len() && s1[j] == s2[i];
            assert(spec_hit(s1[j], ray, t_min, t_max) is None);
        }
    }
    if brute_hit(s2, ray, t_min, t_max) is None {
        assert forall|i: int|
            0 <= i < s1.len() implies spec_hit(#[trigger] s1[i], ray, t_min, t_max) is None by {
            assert(s1.contains(s1[i]));
            assert(s1.to_multiset().count(s1[i]) > 0);
            assert(s2.to_multiset().count(s1[i]) > 0);
            assert(s2.contains(s1[i]));
            let j = choose|j: int| 0 <= j < s2.len() && s2[j] == s1[i];
            assert(spec_hit(s2[j], ray, t_min, t_max) is None);
        }
    }
    match (brute_hit(s1, ray, t_min, t_max), brute_hit(s2, ray, t_min, t_max)) {
        (Some(h1), Some(h2)) => {
            let i1 = choose|i: int|
                0 <= i < s1.len() && spec_hit(#[trigger] s1[i], ray, t_min, t_max) == Some(h1);
            assert(s1.contains(s1[i1]));
            assert(s1.to_multiset().count(s1[i1]) > 0);
            assert(s2.to_multiset().count(s1[i1]) > 0);
            assert(s2.contains(s1[i1]));
            let j1 = choose|j: int| 0 <= j < s2.len() && s2[j] == s1[i1];
            assert(spec_hit(s2[j1], ray, t_min, t_max) is Some);
            assert(rat_le(h2.parameter, h1.parameter));
            let i2 = choose|i: int|
                0 <= i < s2.len() && spec_hit(#[trigger] s2[i], ray, t_min, t_max) == Some(h2);
            assert(s2.contains(s2[i2]));
            assert(s2.to_multiset().count(s2[i2]) > 0);
            assert(s1.to_multiset().count(s2[i2]) > 0);
            assert(s1.contains(s2[i2]));
            let j2 = choose|j: int| 0 <= j < s1.len() && s1[j] == s2[i2];
            assert(spec_hit(s1[j2], ray, t_min, t_max) is Some);
            assert(rat_le(h1.parameter, h2.parameter));
        },
        _ => {},
    }
}

} // verus!

