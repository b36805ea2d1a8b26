//! Bounding-volume hierarchy construction.
//!
//! A triangle set is split recursively: triangles whose centroid lies below
//! the mean centroid on the box's dominant axis go left, the rest go right.
//! When that partition fails to shrink the set (coincident geometry), the
//! builder falls back to a count bisection, so construction always
//! terminates and every input triangle lands in exactly one leaf.

use vstd::prelude::*;
use vstd::seq_lib::lemma_multiset_commutative;
use crate::aabb::{lemma_of_seq_contains, lemma_of_seq_subset, AABB, Axis};
use crate::model::{faces_tris, Mesh};
use crate::objects::Triangle;

verus! {

broadcast use vstd::seq_lib::group_to_multiset_ensures, vstd::prelude::Seq::lemma_filter_push;

/// The primitive count at or below which construction stops in a leaf.
/// A tunable: small enough to keep leaves cheap to scan, large enough to
/// bound tree depth.
pub const LEAF_THRESHOLD: usize = 20;

/// A node of the hierarchy: an interior split owning two children, or a
/// leaf owning a bounded bag of triangles.
pub enum BVHNode {
    BVHNode { aabb: AABB, left: Box<BVHNode>, right: Box<BVHNode> },
    LeafNode { aabb: AABB, objects: Vec<Triangle> },
}

impl BVHNode {
    /// The box stored at this node.
    pub open spec fn get_aabb(self) -> AABB {
        match self {
            BVHNode::BVHNode { aabb, .. } => aabb,
            BVHNode::LeafNode { aabb, .. } => aabb,
        }
    }

    /// Every triangle under this node, leaves left to right.
    pub open spec fn tri_seq(self) -> Seq<Triangle>
        decreases self,
    {
        match self {
            BVHNode::BVHNode { left, right, .. } => (*left).tri_seq() + (*right).tri_seq(),
            BVHNode::LeafNode { objects, .. } => objects@,
        }
    }

    /// Total number of nodes.
    pub open spec fn node_count(self) -> nat
        decreases self,
    {
        match self {
            BVHNode::BVHNode { left, right, .. } => 1 + (*left).node_count()
                + (*right).node_count(),
            BVHNode::LeafNode { .. } => 1nat,
        }
    }

    /// Number of leaves.
    pub open spec fn leaf_count(self) -> nat
        decreases self,
    {
        match self {
            BVHNode::BVHNode { left, right, .. } => (*left).leaf_count() + (*right).leaf_count(),
            BVHNode::LeafNode { .. } => 1nat,
        }
    }

    /// Number of interior nodes.
    pub open spec fn internal_count(self) -> nat
        decreases self,
    {
        match self {
            BVHNode::BVHNode { left, right, .. } => 1 + (*left).internal_count()
                + (*right).internal_count(),
            BVHNode::LeafNode { .. } => 0nat,
        }
    }

    /// Geometric well-formedness: a leaf's box holds all its triangles'
    /// vertices, and an interior node's box holds both children's boxes.
    pub open spec fn wf(self) -> bool
        decreases self,
    {
        match self {
            BVHNode::BVHNode { aabb, left, right } => (*left).wf() && (*right).wf()
                && aabb.contains_box((*left).get_aabb()) && aabb.contains_box(
                (*right).get_aabb(),
            ),
            BVHNode::LeafNode { aabb, objects } => forall|i: int|
                0 <= i < objects@.len() ==> #[trigger] aabb.contains_triangle(objects@[i]),
        }
    }

    /// Every leaf holds at most `cap` triangles.
    pub open spec fn leaves_within(self, cap: int) -> bool
        decreases self,
    {
        match self {
            BVHNode::BVHNode { left, right, .. } => (*left).leaves_within(cap)
                && (*right).leaves_within(cap),
            BVHNode::LeafNode { objects, .. } => objects@.len() <= cap,
        }
    }
}

/// The centroid of a triangle, times three (the plain vertex sum), read on
/// one axis.
pub open spec fn axis_c3(t: Triangle, axis: Axis) -> int {
    match axis {
        Axis::X => t.v0.x + t.v1.x + t.v2.x,
        Axis::Y => t.v0.y + t.v1.y + t.v2.y,
        Axis::Z => t.v0.z + t.v1.z + t.v2.z,
    }
}

/// Sum of the scaled centroids of a triangle sequence on one axis.
pub open spec fn c3_sum(s: Seq<Triangle>, axis: Axis) -> int
    decreases s.len(),
{
    if s.len() == 0 {
        0
    } else {
        c3_sum(s.drop_last(), axis) + axis_c3(s.last(), axis)
    }
}

/// The mean-split test: the triangle's centroid is strictly below the mean
/// centroid of the whole set on the split axis. Both sides are scaled by
/// `3 * n`, so the comparison is exact in integers.
pub open spec fn goes_left(t: Triangle, axis: Axis, sum: int, n: int) -> bool {
    axis_c3(t, axis) * n < sum
}

/// The predicate selecting the left side of a mean split.
pub open spec fn left_pred(axis: Axis, sum: int, n: int) -> spec_fn(Triangle) -> bool {
    |t: Triangle| goes_left(t, axis, sum, n)
}

/// The predicate selecting the right side of a mean split.
pub open spec fn right_pred(axis: Axis, sum: int, n: int) -> spec_fn(Triangle) -> bool {
    |t: Triangle| !goes_left(t, axis, sum, n)
}

/// Partitions a primitive set for recursion: mean split on the box's
/// dominant axis, or a count bisection when every centroid falls on one
/// side. Both returned sides are nonempty and strictly smaller than the
/// input.
pub fn split_prims(prims: Vec<Triangle>, aabb: AABB) -> (r: (Vec<Triangle>, Vec<Triangle>))
    requires
        prims@.len() >= 2,
    ensures
        ({
            let axis = aabb.biggest_axis_spec();
            let n = prims@.len() as int;
            let sum = c3_sum(prims@, axis);
            let lf = prims@.filter(left_pred(axis, sum, n));
            let rf = prims@.filter(right_pred(axis, sum, n));
            if lf.len() > 0 && rf.len() > 0 {
                r.0@ == lf && r.1@ == rf
            } else {
                r.0@ == prims@.take(n / 2) && r.1@ == prims@.skip(n / 2)
            }
        }),
        r.0@.len() + r.1@.len() == prims@.len(),
        r.0@.len() >= 1 && r.1@.len() >= 1,
        r.0@.to_multiset().add(r.1@.to_multiset()) == prims@.to_multiset(),
{
    let n = prims.len();
    let axis = aabb.get_biggest_axis();

    let mut sum: i128 = 0;
    let mut k: usize = 0;
    while k < n
        invariant
            0 <= k <= n,
            n == prims@.len(),
            sum == c3_sum(prims@.take(k as int), axis),
            -(k as int) * 0x1_8000_0000 <= sum <= (k as int) * 0x1_8000_0000,
        decreases n - k,
    {
        let (cx, cy, cz) = prims[k].centroid3();
        let c: i64 = match axis {
            Axis::X => cx,
            Axis::Y => cy,
            Axis::Z => cz,
        };
        proof {
            assert(prims@.take(k + 1).drop_last() =~= prims@.take(k as int));
            assert(prims@.take(k + 1).last() == prims@[k as int]);
            assert(axis_c3(prims@[k as int], axis) == c);
        }
        sum = sum + c as i128;
        k = k + 1;
    }
    proof {
        assert(prims@.take(n as int) =~= prims@);
    }

    let ghost total: int = sum as int;
    let ghost lpred = left_pred(axis, total, prims@.len() as int);
    let ghost rpred = right_pred(axis, total, prims@.len() as int);

    let mut left: Vec<Triangle> = Vec::new();
    let mut right: Vec<Triangle> = Vec::new();
    let mut k: usize = 0;
    while k < n
        invariant
            0 <= k <= n,
            n == prims@.len(),
            left@ == prims@.take(k as int).filter(lpred),
            right@ == prims@.take(k as int).filter(rpred),
            left@.len() + right@.len() == k,
            left@.to_multiset().add(right@.to_multiset()) == prims@.take(k as int).to_multiset(),
            total == sum as int,
            lpred == left_pred(axis, total, prims@.len() as int),
            rpred == right_pred(axis, total, prims@.len() as int),
        decreases n - k,
    {
        let prim = prims[k];
        let (cx, cy, cz) = prim.centroid3();
        let c: i64 = match axis {
            Axis::X => cx,
            Axis::Y => cy,
            Axis::Z => cz,
        };
        proof {
            assert(axis_c3(prims@[k as int], axis) == c);
            assert((c as int) * (n as int) <= 0x1_8000_0000i128 * 0x1_0000_0000_0000_0000i128
                && (c as int) * (n as int) >= -(0x1_8000_0000i128 * 0x1_0000_0000_0000_0000i128))
                by (nonlinear_arith)
                requires
                    -0x1_8000_0000 <= c <= 0x1_8000_0000,
                    0 <= n <= 0x1_0000_0000_0000_0000,
            ;
            assert(prims@.take(k + 1).drop_last() =~= prims@.take(k as int));
            assert(prims@.take(k + 1) == prims@.take(k as int).push(prims@[k as int]));
            assert(prims@.take(k + 1).filter(lpred) == prims@.take(k as int).push(
                prims@[k as int],
            ).filter(lpred));
            assert(prims@.take(k + 1).filter(rpred) == prims@.take(k as int).push(
                prims@[k as int],
            ).filter(rpred));
            assert(lpred(prims@[k as int]) == ((c as int) * (n as int) < total));
            assert(rpred(prims@[k as int]) == !((c as int) * (n as int) < total));
        }
        if (c as i128) * (n as i128) < sum {
            left.push(prim);
        } else {
            right.push(prim);
        }
        k = k + 1;
    }
    proof {
        assert(prims@.take(n as int) =~= prims@);
    }

    if left.len() > 0 && right.len() > 0 {
        return (left, right);
    }

    // Degenerate mean split: bisect by count so recursion shrinks.
    let m = n / 2;
    let mut l2: Vec<Triangle> = Vec::new();
    let mut r2: Vec<Triangle> = Vec::new();
    let mut k: usize = 0;
    while k < m
        invariant
            0 <= k <= m <= n,
            n == prims@.len(),
            l2@ == prims@.take(k as int),
        decreases m - k,
    {
        let prim = prims[k];
        proof {
            assert(prims@.take(k + 1) == prims@.take(k as int).push(prims@[k as int]));
        }
        l2.push(prim);
        k = k + 1;
    }
    let mut k: usize = m;
    while k < n
        invariant
            m <= k <= n,
            n == prims@.len(),
            r2@ == prims@.subrange(m as int, k as int),
        decreases n - k,
    {
        let prim = prims[k];
        proof {
            assert(prims@.subrange(m as int, k + 1) == prims@.subrange(m as int, k as int).push(
                prims@[k as int],
            ));
        }
        r2.push(prim);
        k = k + 1;
    }
    proof {
        assert(r2@ == prims@.skip(m as int));
        assert(prims@.take(m as int) + prims@.skip(m as int) =~= prims@);
        lemma_multiset_commutative(prims@.take(m as int), prims@.skip(m as int));
    }
    (l2, r2)
}

/// Builds the hierarchy over a triangle list with an explicit leaf bound.
///
/// The result holds exactly the input triangles, every node's box is the
/// bounding box of the triangles under it, child boxes nest inside parent
/// boxes, and no leaf exceeds `threshold` triangles. A list already at or
/// under the bound becomes one leaf holding it unchanged.
pub fn build_bvh(tris: Vec<Triangle>, threshold: usize) -> (node: BVHNode)
    requires
        threshold >= 1,
    ensures
        node.tri_seq().to_multiset() == tris@.to_multiset(),
        node.tri_seq().len() == tris@.len(),
        node.get_aabb() == AABB::of_seq(tris@),
        node.wf(),
        node.leaves_within(threshold as int),
        tris@.len() <= threshold ==> node == (BVHNode::LeafNode {
            aabb: AABB::of_seq(tris@),
            objects: tris,
        }),
        tris@.len() > threshold ==> node is BVHNode,
    decreases tris@.len(),
{
    let aabb = AABB::from_triangles(&tris);

    if tris.len() <= threshold {
        proof {
            lemma_of_seq_contains(tris@);
        }
        return BVHNode::LeafNode { aabb, objects: tris };
    }

    let ghost all = tris@;
    let (left, right) = split_prims(tris, aabb);
    let ghost lseq = left@;
    let ghost rseq = right@;

    let left_node = build_bvh(left, threshold);
    let right_node = build_bvh(right, threshold);

    proof {
        // Both parts sit inside the original set, so their boxes nest.
        assert forall|i: int| 0 <= i < lseq.len() implies all.contains(#[trigger] lseq[i]) by {
            assert(lseq.to_multiset().count(lseq[i]) > 0);
            assert(all.to_multiset().count(lseq[i]) > 0);
        }
        assert forall|i: int| 0 <= i < rseq.len() implies all.contains(#[trigger] rseq[i]) by {
            assert(rseq.to_multiset().count(rseq[i]) > 0);
            assert(all.to_multiset().count(rseq[i]) > 0);
        }
        lemma_of_seq_subset(lseq, all);
        lemma_of_seq_subset(rseq, all);
        lemma_multiset_commutative(left_node.tri_seq(), right_node.tri_seq());
        assert(left_node.tri_seq().to_multiset().add(right_node.tri_seq().to_multiset())
            == all.to_multiset());
    }

    BVHNode::BVHNode { aabb, left: Box::new(left_node), right: Box::new(right_node) }
}

/// Builds the hierarchy over a mesh's world triangles with the default
/// leaf bound.
pub fn construct_bvh(mesh: &Mesh) -> (node: BVHNode)
    requires
        mesh.in_range(),
        faces_tris(mesh.faces@).len() <= u32::MAX,
    ensures
        node.tri_seq().to_multiset() == mesh.tris_spec().to_multiset(),
        node.tri_seq().len() == mesh.tris_spec().len(),
        node.get_aabb() == AABB::of_seq(mesh.tris_spec()),
        node.wf(),
        node.leaves_within(LEAF_THRESHOLD as int),
        mesh.tris_spec().len() <= LEAF_THRESHOLD ==> node is LeafNode && node.tri_seq()
            == mesh.tris_spec(),
{
    let prims = mesh.get_triangles();
    build_bvh(prims, LEAF_THRESHOLD)
}

/// The leaves of a tree in pre-order: each leaf's box and triangle list.
pub open spec fn leaves_spec(node: BVHNode) -> Seq<(AABB, Seq<Triangle>)>
    decreases node,
{
    match node {
        BVHNode::BVHNode { left, right, .. } => leaves_spec(*left) + leaves_spec(*right),
        BVHNode::LeafNode { aabb, objects } => seq![(aabb, objects@)],
    }
}

/// A tree has as many leaf entries as leaves.
pub proof fn lemma_leaves_spec_len(node: BVHNode)
    ensures
        leaves_spec(node).len() == node.leaf_count(),
    decreases node,
{
    match node {
        BVHNode::BVHNode { left, right, .. } => {
            lemma_leaves_spec_len(*left);
            lemma_leaves_spec_len(*right);
        },
        BVHNode::LeafNode { .. } => {},
    }
}

/// The leaf boxes and triangle lists a collected leaf vector stands for.
pub open spec fn views_of(s: Seq<(AABB, Vec<Triangle>)>) -> Seq<(AABB, Seq<Triangle>)> {
    Seq::new(s.len(), |i: int| (s[i].0, s[i].1@))
}

/// Collects every leaf of the tree in pre-order: the box and a copy of
/// the triangle list of each.
pub fn traverse_leaf_nodes(node: &BVHNode) -> (r: Vec<(AABB, Vec<Triangle>)>)
    ensures
        views_of(r@) == leaves_spec(*node),
{
    let mut out: Vec<(AABB, Vec<Triangle>)> = Vec::new();
    proof {
        assert(views_of(out@) =~= Seq::<(AABB, Seq<Triangle>)>::empty());
    }
    collect_leaves(node, &mut out);
    proof {
        assert(Seq::<(AABB, Seq<Triangle>)>::empty() + leaves_spec(*node) =~= leaves_spec(*node));
    }
    out
}

fn collect_leaves(node: &BVHNode, out: &mut Vec<(AABB, Vec<Triangle>)>)
    ensures
        views_of(final(out)@) == views_of(old(out)@) + leaves_spec(*node),
    decreases *node,
{
    match node {
        BVHNode::LeafNode { aabb, objects } => {
            let mut copy: Vec<Triangle> = Vec::new();
            let mut j: usize = 0;
            while j < objects.len()
                invariant
                    0 <= j <= objects@.len(),
                    copy@ == objects@.take(j as int),
                decreases objects@.len() - j,
            {
                proof {
                    assert(objects@.take(j + 1) == objects@.take(j as int).push(
                        objects@[j as int],
                    ));
                }
                copy.push(objects[j]);
                j = j + 1;
            }
            proof {
                assert(objects@.take(objects@.len() as int) =~= objects@);
            }
            out.push((*aabb, copy));
            proof {
                assert(views_of(out@) =~= views_of(old(out)@) + leaves_spec(*node));
            }
        },
        BVHNode::BVHNode { left, right, .. } => {
            collect_leaves(left, out);
            collect_leaves(right, out);
            proof {
                assert(views_of(out@) =~= views_of(old(out)@) + leaves_spec(*node));
            }
        },
    }
}

} // verus!
