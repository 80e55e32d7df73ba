//! The bounding volume hierarchy: a binary tree over shapes, built once
//! and traversed read-only.
//!
//! Construction sorts the shapes by the minimum corner of their boxes
//! along the longest axis of the union box, splits at the midpoint and
//! recurses; every node caches the box around its two children. Traversal
//! prunes by the cached box and returns the closer of the two children's
//! hits. The theorem [`lemma_node_hit_equals_brute`] shows that this
//! returns exactly what the linear scan over the tree's shapes returns.

use vstd::prelude::*;

use crate::aabb::{
    aabb_wf, lemma_slab_hit_monotone, lemma_surrounding_box_contains, slab_hit,
    spec_surrounding_box, Aabb,
};
use crate::hitable::{
    lemma_shape_box_wf, lemma_spec_hit_props, shape_wf, spec_bounding_box, spec_hit,
    HitRecord, Shape,
};
use crate::rat::{rat_le, rat_wf, Rat};
use crate::ray::{ray_wf, Ray};
use crate::vec3::vec_axis;
use crate::world::{
    all_wf, better_hit, brute_hit, lemma_brute_hit_append, lemma_brute_hit_props,
    world_boxes_union,
};

verus! {

broadcast use vstd::seq_lib::group_to_multiset_ensures;

/// A node of the hierarchy: a single shape, or two children with the box
/// that bounds both.
pub enum BvhNode {
    Leaf(Shape),
    Node { left: Box<BvhNode>, right: Box<BvhNode>, bbox: Aabb },
}

/// Well-formed tree: shapes in range, and every cached box is exactly the
/// box around the two children's boxes.
pub open spec fn node_wf(n: BvhNode) -> bool
    decreases n,
{
    match n {
        BvhNode::Leaf(s) => shape_wf(s),
        BvhNode::Node { left, right, bbox } => node_wf(*left) && node_wf(*right) && bbox
            == spec_surrounding_box(node_bbox(*left), node_bbox(*right)),
    }
}

/// The box of a node: a leaf's shape box, or the cached box.
pub open spec fn node_bbox(n: BvhNode) -> Aabb
    decreases n,
{
    match n {
        BvhNode::Leaf(s) => spec_bounding_box(s),
        BvhNode::Node { bbox, .. } => bbox,
    }
}

/// The shapes at the leaves, left to right.
pub open spec fn leaves(n: BvhNode) -> Seq<Shape>
    decreases n,
{
    match n {
        BvhNode::Leaf(s) => seq![s],
        BvhNode::Node { left, right, .. } => leaves(*left) + leaves(*right),
    }
}

/// What traversing a node returns: nothing when the cached box is missed,
/// otherwise the closer of the two children's hits.
pub open spec fn node_hit(n: BvhNode, ray: Ray, t_min: Rat, t_max: Rat) -> Option<HitRecord>
    decreases n,
{
    match n {
        BvhNode::Leaf(s) => spec_hit(s, ray, t_min, t_max),
        BvhNode::Node { left, right, bbox } => {
            if !slab_hit(bbox, ray.origin, ray.direction, t_min, t_max) {
                None
            } else {
                better_hit(node_hit(*left, ray, t_min, t_max), node_hit(*right, ray, t_min, t_max))
            }
        },
    }
}

/// The box of a well-formed node is well-formed.
pub proof fn lemma_node_box_wf(n: BvhNode)
    requires
        node_wf(n),
    ensures
        aabb_wf(node_bbox(n)),
    decreases n,
{
    match n {
        BvhNode::Leaf(s) => lemma_shape_box_wf(s),
        BvhNode::Node { left, right, .. } => {
            lemma_node_box_wf(*left);
            lemma_node_box_wf(*right);
        },
    }
}

/// Every shape under a well-formed node is well-formed.
pub proof fn lemma_node_leaves_wf(n: BvhNode)
    requires
        node_wf(n),
    ensures
        all_wf(leaves(n)),
    decreases n,
{
    match n {
        BvhNode::Leaf(s) => {},
        BvhNode::Node { left, right, .. } => {
            lemma_node_leaves_wf(*left);
            lemma_node_leaves_wf(*right);
            let ll = leaves(*left);
            let rl = leaves(*right);
            assert forall|i: int| 0 <= i < (ll + rl).len() implies shape_wf(#[trigger] (ll + rl)[i]) by {
                if i < ll.len() {
                    assert((ll + rl)[i] == ll[i]);
                } else {
                    assert((ll + rl)[i] == rl[i - ll.len()]);
                }
            }
        },
    }
}

/// When a node's box is missed, nothing under it is hit: neither the
/// traversal nor the linear scan of its shapes finds anything.
pub proof fn lemma_node_missed(n: BvhNode, ray: Ray, t_min: Rat, t_max: Rat)
    requires
        node_wf(n),
        ray_wf(ray),
        rat_wf(t_min),
        rat_wf(t_max),
        !slab_hit(node_bbox(n), ray.origin, ray.direction, t_min, t_max),
    ensures
        node_hit(n, ray, t_min, t_max) is None,
        brute_hit(leaves(n), ray, t_min, t_max) is None,
    decreases n,
{
    match n {
        BvhNode::Leaf(s) => {
            lemma_spec_hit_props(s, ray, t_min, t_max);
            let l = leaves(n);
            assert(l =~= seq![s]);
            assert(l.drop_last() =~= Seq::<Shape>::empty());
            assert(brute_hit(Seq::<Shape>::empty(), ray, t_min, t_max) is None);
            assert(brute_hit(l, ray, t_min, t_max) == better_hit(
                brute_hit(l.drop_last(), ray, t_min, t_max),
                spec_hit(l.last(), ray, t_min, t_max),
            ));
        },
        BvhNode::Node { left, right, bbox } => {
            lemma_node_box_wf(*left);
            lemma_node_box_wf(*right);
            lemma_node_box_wf(n);
            lemma_surrounding_box_contains(node_bbox(*left), node_bbox(*right));
            if slab_hit(node_bbox(*left), ray.origin, ray.direction, t_min, t_max) {
                lemma_slab_hit_monotone(node_bbox(*left), bbox, ray.origin, ray.direction, t_min, t_max);
            }
            if slab_hit(node_bbox(*right), ray.origin, ray.direction, t_min, t_max) {
                lemma_slab_hit_monotone(node_bbox(*right), bbox, ray.origin, ray.direction, t_min, t_max);
            }
            lemma_node_missed(*left, ray, t_min, t_max);
            lemma_node_missed(*right, ray, t_min, t_max);
            lemma_node_leaves_wf(*left);
            lemma_node_leaves_wf(*right);
            lemma_brute_hit_append(leaves(*left), leaves(*right), ray, t_min, t_max);
        },
    }
}

/// The heart of the hierarchy: traversing a well-formed tree returns
/// exactly the closest hit that the brute-force linear scan over the
/// tree's shapes returns.
pub proof fn lemma_node_hit_equals_brute(n: BvhNode, ray: Ray, t_min: Rat, t_max: Rat)
    requires
        node_wf(n),
        ray_wf(ray),
        rat_wf(t_min),
        rat_wf(t_max),
    ensures
        node_hit(n, ray, t_min, t_max) == brute_hit(leaves(n), ray, t_min, t_max),
    decreases n,
{
    match n {
        BvhNode::Leaf(s) => {
            let l = leaves(n);
            assert(l =~= seq![s]);
            assert(l.drop_last() =~= Seq::<Shape>::empty());
            assert(brute_hit(Seq::<Shape>::empty(), ray, t_min, t_max) is None);
            assert(brute_hit(l, ray, t_min, t_max) == better_hit(
                brute_hit(l.drop_last(), ray, t_min, t_max),
                spec_hit(l.last(), ray, t_min, t_max),
            ));
        },
        BvhNode::Node { left, right, bbox } => {
            if !slab_hit(bbox, ray.origin, ray.direction, t_min, t_max) {
                lemma_node_missed(n, ray, t_min, t_max);
            } else {
                lemma_node_hit_equals_brute(*left, ray, t_min, t_max);
                lemma_node_hit_equals_brute(*right, ray, t_min, t_max);
                lemma_node_leaves_wf(*left);
                lemma_node_leaves_wf(*right);
                lemma_brute_hit_append(leaves(*left), leaves(*right), ray, t_min, t_max);
            }
        },
    }
}

/// The key a shape is sorted by: the minimum corner of its box on the
/// chosen axis.
pub open spec fn box_min_key(s: Shape, axis: int) -> int {
    vec_axis(spec_bounding_box(s).minimum, axis)
}

/// Sorted by box minimum along the axis, in nondecreasing order.
pub open spec fn sorted_by_axis(shapes: Seq<Shape>, axis: int) -> bool {
    forall|i: int, j: int|
        0 <= i < j < shapes.len() ==> box_min_key(#[trigger] shapes[i], axis) <= box_min_key(
            #[trigger] shapes[j],
            axis,
        )
}

/// The sort key of a shape, executable.
fn box_min_axis(s: &Shape, axis: usize) -> (r: i64)
    requires
        shape_wf(*s),
        axis < 3,
    ensures
        r == box_min_key(*s, axis as int),
{
    s.bounding_box().minimum.get(axis)
}

/// Sort shapes by the minimum corner of their boxes along one axis, by
/// selection of the least remaining key.
fn sort_by_box_min(v: &mut Vec<Shape>, axis: usize)
    requires
        all_wf(old(v)@),
        axis < 3,
    ensures
        final(v)@.to_multiset() == old(v)@.to_multiset(),
        final(v)@.len() == old(v)@.len(),
        all_wf(final(v)@),
        sorted_by_axis(final(v)@, axis as int),
{
    let ghost orig = v@;
    let mut out: Vec<Shape> = Vec::new();
    while v.len() > 0
        invariant
            axis < 3,
            all_wf(v@),
            all_wf(out@),
            out@.to_multiset().add(v@.to_multiset()) == orig.to_multiset(),
            out@.len() + v@.len() == orig.len(),
            sorted_by_axis(out@, axis as int),
            forall|a: int, b: int|
                0 <= a < out@.len() && 0 <= b < v@.len() ==> box_min_key(
                    #[trigger] out@[a],
                    axis as int,
                ) <= box_min_key(#[trigger] v@[b], axis as int),
        decreases v.len(),
    {
        let mut mi: usize = 0;
        let mut j: usize = 1;
        while j < v.len()
            invariant
                axis < 3,
                all_wf(v@),
                v@.len() > 0,
                mi < v@.len(),
                j <= v@.len(),
                forall|k: int|
                    0 <= k < j ==> box_min_key(v@[mi as int], axis as int) <= box_min_key(
                        #[trigger] v@[k],
                        axis as int,
                    ),
            decreases v.len() - j,
        {
            if box_min_axis(&v[j], axis) < box_min_axis(&v[mi], axis) {
                mi = j;
            }
            j = j + 1;
        }
        let ghost vold = v@;
        let ghost oold = out@;
        let x = v.remove(mi);
        out.push(x);
        proof {
            assert(vold.contains(x)) by {
                assert(vold[mi as int] == x);
            }
            assert(vold.to_multiset().count(x) > 0);
            assert(out@.to_multiset().add(v@.to_multiset()) =~= oold.to_multiset().add(
                vold.to_multiset(),
            )) by {
                broadcast use vstd::multiset::group_multiset_axioms;
            }
            assert forall|a: int, b: int|
                0 <= a < out@.len() && 0 <= b < v@.len() implies box_min_key(
                #[trigger] out@[a],
                axis as int,
            ) <= box_min_key(#[trigger] v@[b], axis as int) by {
                if b < mi {
                    assert(v@[b] == vold[b]);
                } else {
                    assert(v@[b] == vold[b + 1]);
                }
                if a < oold.len() {
                    assert(out@[a] == oold[a]);
                } else {
                    assert(out@[a] == x);
                }
            }
        }
    }
    proof {
        assert(v@.to_multiset().len() == 0);
        assert(v@ =~= Seq::<Shape>::empty());
        assert(out@.to_multiset().add(v@.to_multiset()) =~= out@.to_multiset()) by {
            broadcast use vstd::multiset::group_multiset_axioms;
        }
        assert(out@.to_multiset().len() == orig.to_multiset().len());
    }
    *v = out;
}

/// The hierarchy: a tree of boxes over the scene's shapes.
pub struct BVH {
    root: BvhNode,
}

impl BVH {
    /// The tree is well-formed.
    pub closed spec fn wf(self) -> bool {
        node_wf(self.root)
    }

    /// The shapes at the tree's leaves, left to right.
    pub closed spec fn shapes(self) -> Seq<Shape> {
        leaves(self.root)
    }

    /// The box around the whole tree.
    pub closed spec fn spec_box(self) -> Aabb {
        node_bbox(self.root)
    }

    /// Construct a new BVH from the objects in the scene.
    ///
    /// The shapes are sorted along the longest axis of their union box and
    /// split at the midpoint, recursively. An empty scene has no tree:
    /// construction fails explicitly rather than producing a node that
    /// misses or hits everything.
    pub fn new(world: Vec<Shape>) -> (r: Option<BVH>)
        requires
            all_wf(world@),
        ensures
            r is Some <==> world@.len() > 0,
            r matches Some(b) ==> b.wf() && b.shapes().to_multiset() == world@.to_multiset(),
    {
        if world.len() == 0 {
            return None;
        }
        Some(BVH { root: Self::build(world) })
    }

    /// Build the tree over a non-empty list of shapes.
    fn build(world: Vec<Shape>) -> (r: BvhNode)
        requires
            all_wf(world@),
            world@.len() > 0,
        ensures
            node_wf(r),
            leaves(r).to_multiset() == world@.to_multiset(),
        decreases world@.len(),
    {
        let ghost orig = world@;
        let mut world = world;
        let main_box = world_boxes_union(&world);
        let axis = main_box.longest_axis();
        sort_by_box_min(&mut world, axis);
        if world.len() == 1 {
            let ghost sorted = world@;
            let s = world.remove(0);
            let r = BvhNode::Leaf(s);
            proof {
                assert(leaves(r) =~= sorted);
            }
            r
        } else if world.len() == 2 {
            let ghost sorted = world@;
            let a = world.remove(0);
            let b = world.remove(0);
            let bbox = a.bounding_box().surrounding_box(&b.bounding_box());
            let r = BvhNode::Node {
                left: Box::new(BvhNode::Leaf(a)),
                right: Box::new(BvhNode::Leaf(b)),
                bbox,
            };
            proof {
                assert(leaves(BvhNode::Leaf(a)) =~= seq![a]);
                assert(leaves(BvhNode::Leaf(b)) =~= seq![b]);
                assert(node_bbox(BvhNode::Leaf(a)) == spec_bounding_box(a));
                assert(node_bbox(BvhNode::Leaf(b)) == spec_bounding_box(b));
                assert(node_wf(BvhNode::Leaf(a)));
                assert(node_wf(BvhNode::Leaf(b)));
                assert(leaves(r) =~= sorted);
            }
            r
        } else {
            let ghost sorted = world@;
            let mid = world.len() / 2;
            let right_objects = world.split_off(mid);
            proof {
                assert(all_wf(world@)) by {
                    assert(forall|i: int| 0 <= i < world@.len() ==> world@[i] == sorted[i]);
                }
                assert(all_wf(right_objects@)) by {
                    assert(forall|i: int|
                        0 <= i < right_objects@.len() ==> right_objects@[i] == sorted[i + mid]);
                }
            }
            let left_node = Self::build(world);
            let right_node = Self::build(right_objects);
            let bbox = Self::node_box(&left_node).surrounding_box(&Self::node_box(&right_node));
            let r = BvhNode::Node {
                left: Box::new(left_node),
                right: Box::new(right_node),
                bbox,
            };
            proof {
                assert(sorted =~= sorted.subrange(0, mid as int) + sorted.subrange(
                    mid as int,
                    sorted.len() as int,
                ));
                vstd::seq_lib::lemma_multiset_commutative(
                    sorted.subrange(0, mid as int),
                    sorted.subrange(mid as int, sorted.len() as int),
                );
                vstd::seq_lib::lemma_multiset_commutative(leaves(left_node), leaves(right_node));
            }
            r
        }
    }

    /// The box of a node, from the cache.
    fn node_box(n: &BvhNode) -> (r: Aabb)
        requires
            node_wf(*n),
        ensures
            r == node_bbox(*n),
            aabb_wf(r),
    {
        proof {
            lemma_node_box_wf(*n);
        }
        match n {
            BvhNode::Leaf(s) => s.bounding_box(),
            BvhNode::Node { bbox, .. } => *bbox,
        }
    }

    /// Test whether the ray intersects anything under this tree, and
    /// return the closest hit.
    ///
    /// The contract is the correctness statement of the whole index: the
    /// result is exactly what the brute-force linear scan over the tree's
    /// shapes returns, and any hit lies within the query window.
    pub fn hit(&self, ray: &Ray, position_min: &Rat, position_max: &Rat) -> (r: Option<HitRecord>)
        requires
            self.wf(),
            ray_wf(*ray),
            rat_wf(*position_min),
            rat_wf(*position_max),
        ensures
            r == brute_hit(self.shapes(), *ray, *position_min, *position_max),
            r matches Some(h) ==> rat_le(*position_min, h.parameter) && rat_le(
                h.parameter,
                *position_max,
            ),
    {
        proof {
            lemma_node_hit_equals_brute(self.root, *ray, *position_min, *position_max);
            lemma_node_leaves_wf(self.root);
            lemma_brute_hit_props(self.shapes(), *ray, *position_min, *position_max);
        }
        Self::hit_node(&self.root, ray, position_min, position_max)
    }

    /// Traverse one node.
    fn hit_node(n: &BvhNode, ray: &Ray, position_min: &Rat, position_max: &Rat) -> (r: Option<
        HitRecord,
    >)
        requires
            node_wf(*n),
            ray_wf(*ray),
            rat_wf(*position_min),
            rat_wf(*position_max),
        ensures
            r == node_hit(*n, *ray, *position_min, *position_max),
        decreases *n,
    {
        match n {
            BvhNode::Leaf(s) => s.hit(ray, position_min, position_max),
            BvhNode::Node { left, right, bbox } => {
                proof {
                    lemma_node_box_wf(*n);
                }
                if !bbox.hit(ray, position_min, position_max) {
                    return None;
                }
                let left_hit = Self::hit_node(left, ray, position_min, position_max);
                let right_hit = Self::hit_node(right, ray, position_min, position_max);
                proof {
                    lemma_node_hit_equals_brute(**left, *ray, *position_min, *position_max);
                    lemma_node_hit_equals_brute(**right, *ray, *position_min, *position_max);
                    lemma_node_leaves_wf(**left);
                    lemma_node_leaves_wf(**right);
                    lemma_brute_hit_props(leaves(**left), *ray, *position_min, *position_max);
                    lemma_brute_hit_props(leaves(**right), *ray, *position_min, *position_max);
                }
                match (left_hit, right_hit) {
                    (Some(l), Some(r2)) => {
                        if l.parameter.lt(&r2.parameter) {
                            Some(l)
                        } else {
                            Some(r2)
                        }
                    },
                    (Some(l), None) => Some(l),
                    (None, Some(r2)) => Some(r2),
                    (None, None) => None,
                }
            },
        }
    }

    /// The box around the whole tree.
    pub fn bounding_box(&self) -> (r: Option<Aabb>)
        requires
            self.wf(),
        ensures
            r == Some(self.spec_box()),
    {
        Some(Self::node_box(&self.root))
    }
}

/// The spatial index answers for the scene it was built from: against any
/// listing of the same shapes, the tree finds a hit for exactly the same
/// rays, at the same ray parameter.
pub proof fn lemma_bvh_agrees_with_linear_scan(
    b: BVH,
    scene: Seq<Shape>,
    ray: Ray,
    t_min: Rat,
    t_max: Rat,
)
    requires
        b.wf(),
        b.shapes().to_multiset() == scene.to_multiset(),
        ray_wf(ray),
        rat_wf(t_min),
        rat_wf(t_max),
    ensures
        brute_hit(b.shapes(), ray, t_min, t_max) is Some <==> brute_hit(
            scene,
            ray,
            t_min,
            t_max,
        ) is Some,
        brute_hit(b.shapes(), ray, t_min, t_max) matches Some(h1) ==> (brute_hit(
            scene,
            ray,
            t_min,
            t_max,
        ) matches Some(h2) ==> crate::rat::rat_eq(h1.parameter, h2.parameter)),
{
    lemma_node_leaves_wf(b.root);
    crate::world::lemma_brute_hit_permutation(b.shapes(), scene, ray, t_min, t_max);
}

} // verus!
