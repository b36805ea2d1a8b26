//! Flattening the hierarchy for a data-parallel consumer.
//!
//! A pre-order walk turns the owned tree into a contiguous node array plus
//! one global triangle-index array. Interior records store the flat indices
//! of their children; leaf records store a contiguous range of the index
//! array. A leaf triangle is looked up in the world buffer by its carried
//! `id`; a triangle whose `id` does not name its exact value in the buffer
//! is dropped and counted, never silently lost.

use vstd::prelude::*;
use crate::bvh::BVHNode;
use crate::objects::Triangle;
use crate::vec3::Vec3;

verus! {

/// One fixed-size node record of the flat layout. For interior records
/// (`is_leaf == 0`) `left_first` and `right_count` are the children's
/// indices in the node array; for leaf records (`is_leaf == 1`) they are
/// the start and length of the leaf's slice of the triangle-index array.
#[derive(Clone, Copy, Debug, PartialEq, Eq, Structural)]
pub struct GpuBVHNode {
    pub min: Vec3,
    pub max: Vec3,
    pub left_first: u32,
    pub right_count: u32,
    pub is_leaf: u32,
}

/// Whether a leaf triangle is found in the world buffer: its `id` names a
/// slot holding exactly its value.
pub open spec fn found_in(t: Triangle, world: Seq<Triangle>) -> bool {
    t.id < world.len() && world[t.id as int] == t
}

/// The ids a leaf's triangle list contributes to the index array, in
/// order, skipping triangles the world buffer does not hold.
pub open spec fn kept_ids_of_seq(s: Seq<Triangle>, world: Seq<Triangle>) -> Seq<u32>
    decreases s.len(),
{
    if s.len() == 0 {
        Seq::empty()
    } else {
        kept_ids_of_seq(s.drop_last(), world) + if found_in(s.last(), world) {
            seq![s.last().id]
        } else {
            Seq::empty()
        }
    }
}

impl BVHNode {
    /// The whole tree's contribution to the triangle-index array,
    /// leaves in pre-order.
    pub open spec fn kept_ids(self, world: Seq<Triangle>) -> Seq<u32>
        decreases self,
    {
        match self {
            BVHNode::BVHNode { left, right, .. } => (*left).kept_ids(world) + (*right).kept_ids(
                world,
            ),
            BVHNode::LeafNode { objects, .. } => kept_ids_of_seq(objects@, world),
        }
    }

    /// The flat node records of this subtree when its first node lands at
    /// `node_base` and its first triangle index at `index_base`.
    pub open spec fn flat_nodes(self, node_base: int, index_base: int, world: Seq<Triangle>)
        -> Seq<GpuBVHNode>
        decreases self,
    {
        match self {
            BVHNode::LeafNode { aabb, objects } => seq![
                GpuBVHNode {
                    min: aabb.min,
                    max: aabb.max,
                    left_first: index_base as u32,
                    right_count: kept_ids_of_seq(objects@, world).len() as u32,
                    is_leaf: 1u32,
                },
            ],
            BVHNode::BVHNode { aabb, left, right } => {
                let left_index = node_base + 1;
                let right_index = node_base + 1 + (*left).node_count();
                seq![
                    GpuBVHNode {
                        min: aabb.min,
                        max: aabb.max,
                        left_first: left_index as u32,
                        right_count: right_index as u32,
                        is_leaf: 0u32,
                    },
                ] + (*left).flat_nodes(left_index, index_base, world) + (*right).flat_nodes(
                    right_index,
                    index_base + (*left).kept_ids(world).len(),
                    world,
                )
            },
        }
    }
}

/// No leaf contributes more ids than it holds triangles.
pub proof fn lemma_kept_ids_of_seq_len(s: Seq<Triangle>, world: Seq<Triangle>)
    ensures
        kept_ids_of_seq(s, world).len() <= s.len(),
    decreases s.len(),
{
    if s.len() > 0 {
        lemma_kept_ids_of_seq_len(s.drop_last(), world);
    }
}

/// The index array never outgrows the triangle count of the tree.
pub proof fn lemma_kept_ids_len(node: BVHNode, world: Seq<Triangle>)
    ensures
        node.kept_ids(world).len() <= node.tri_seq().len(),
    decreases node,
{
    match node {
        BVHNode::BVHNode { left, right, .. } => {
            lemma_kept_ids_len(*left, world);
            lemma_kept_ids_len(*right, world);
        },
        BVHNode::LeafNode { objects, .. } => {
            lemma_kept_ids_of_seq_len(objects@, world);
        },
    }
}

/// The flat layout holds exactly one record per tree node.
pub proof fn lemma_flat_nodes_len(node: BVHNode, node_base: int, index_base: int, world: Seq<
    Triangle,
>)
    ensures
        node.flat_nodes(node_base, index_base, world).len() == node.node_count(),
    decreases node,
{
    match node {
        BVHNode::BVHNode { aabb, left, right } => {
            lemma_flat_nodes_len(*left, node_base + 1, index_base, world);
            lemma_flat_nodes_len(
                *right,
                node_base + 1 + (*left).node_count(),
                index_base + (*left).kept_ids(world).len(),
                world,
            );
        },
        BVHNode::LeafNode { .. } => {},
    }
}

/// Sum of `right_count` over the leaf records of a flat node array.
pub open spec fn sum_leaf_counts(s: Seq<GpuBVHNode>) -> int
    decreases s.len(),
{
    if s.len() == 0 {
        0
    } else {
        sum_leaf_counts(s.drop_last()) + if s.last().is_leaf == 1 {
            s.last().right_count as int
        } else {
            0
        }
    }
}

/// Leaf-count sums add over concatenation.
pub proof fn lemma_sum_leaf_concat(a: Seq<GpuBVHNode>, b: Seq<GpuBVHNode>)
    ensures
        sum_leaf_counts(a + b) == sum_leaf_counts(a) + sum_leaf_counts(b),
    decreases b.len(),
{
    if b.len() == 0 {
        assert(a + b =~= a);
    } else {
        lemma_sum_leaf_concat(a, b.drop_last());
        assert((a + b).drop_last() =~= a + b.drop_last());
        assert((a + b).last() == b.last());
    }
}

/// Coverage: the leaf records of a flattened tree account together for
/// exactly the triangles placed in the index array; with no lookup misses
/// that is every triangle of the tree.
pub proof fn lemma_flat_coverage(node: BVHNode, node_base: int, index_base: int, world: Seq<
    Triangle,
>)
    requires
        node.tri_seq().len() <= u32::MAX,
    ensures
        sum_leaf_counts(node.flat_nodes(node_base, index_base, world)) == node.kept_ids(
            world,
        ).len(),
    decreases node,
{
    match node {
        BVHNode::LeafNode { aabb, objects } => {
            lemma_kept_ids_of_seq_len(objects@, world);
            let recs = node.flat_nodes(node_base, index_base, world);
            assert(recs.len() == 1);
            assert(sum_leaf_counts(recs.drop_last()) == 0);
            assert(recs.last().is_leaf == 1);
            assert(recs.last().right_count == kept_ids_of_seq(objects@, world).len() as u32);
        },
        BVHNode::BVHNode { aabb, left, right } => {
            let left_index = node_base + 1;
            let right_index = node_base + 1 + (*left).node_count();
            let ib2 = index_base + (*left).kept_ids(world).len() as int;
            let head = seq![
                GpuBVHNode {
                    min: aabb.min,
                    max: aabb.max,
                    left_first: left_index as u32,
                    right_count: right_index as u32,
                    is_leaf: 0u32,
                },
            ];
            let lflat = (*left).flat_nodes(left_index, index_base, world);
            let rflat = (*right).flat_nodes(right_index, ib2, world);
            lemma_flat_coverage(*left, left_index, index_base, world);
            lemma_flat_coverage(*right, right_index, ib2, world);
            lemma_sum_leaf_concat(head, lflat);
            lemma_sum_leaf_concat(head + lflat, rflat);
            assert(sum_leaf_counts(head) == 0) by {
                assert(head.drop_last().len() == 0);
                assert(sum_leaf_counts(head.drop_last()) == 0);
                assert(head.last().is_leaf == 0);
            }
        },
    }
}

/// When every triangle of a list is found in the world buffer, the list
/// contributes one id per triangle.
pub proof fn lemma_kept_ids_of_seq_full(s: Seq<Triangle>, world: Seq<Triangle>)
    requires
        forall|i: int| 0 <= i < s.len() ==> found_in(#[trigger] s[i], world),
    ensures
        kept_ids_of_seq(s, world).len() == s.len(),
    decreases s.len(),
{
    if s.len() > 0 {
        assert(found_in(s.last(), world));
        lemma_kept_ids_of_seq_full(s.drop_last(), world);
    }
}

/// When every triangle of the tree is found in the world buffer, the index
/// array lists one entry per tree triangle: nothing is dropped.
pub proof fn lemma_kept_ids_full(node: BVHNode, world: Seq<Triangle>)
    requires
        forall|i: int|
            0 <= i < node.tri_seq().len() ==> found_in(#[trigger] node.tri_seq()[i], world),
    ensures
        node.kept_ids(world).len() == node.tri_seq().len(),
    decreases node,
{
    match node {
        BVHNode::LeafNode { objects, .. } => {
            lemma_kept_ids_of_seq_full(objects@, world);
        },
        BVHNode::BVHNode { left, right, .. } => {
            let l = (*left).tri_seq();
            let r = (*right).tri_seq();
            assert forall|i: int| 0 <= i < l.len() implies found_in(#[trigger] l[i], world) by {
                assert(l[i] == node.tri_seq()[i]);
            }
            assert forall|i: int| 0 <= i < r.len() implies found_in(#[trigger] r[i], world) by {
                assert(r[i] == node.tri_seq()[l.len() + i]);
            }
            lemma_kept_ids_full(*left, world);
            lemma_kept_ids_full(*right, world);
        },
    }
}

/// Coverage, end to end: a tree holding exactly the world buffer's
/// triangles, each carrying its own buffer position as id, has no lookup
/// misses — the flattened leaves account together for every one of the
/// `N` triangles, and the flat array holds one record per node.
pub proof fn lemma_fresh_world_coverage(node: BVHNode, world: Seq<Triangle>)
    requires
        node.tri_seq().to_multiset() == world.to_multiset(),
        forall|i: int| 0 <= i < world.len() ==> (#[trigger] world[i]).id == i,
        world.len() <= u32::MAX,
    ensures
        sum_leaf_counts(node.flat_nodes(0, 0, world)) == world.len(),
        node.flat_nodes(0, 0, world).len() == node.node_count(),
{
    broadcast use vstd::seq_lib::group_to_multiset_ensures;

    assert(node.tri_seq().to_multiset().len() == node.tri_seq().len());
    assert(world.to_multiset().len() == world.len());
    assert forall|i: int| 0 <= i < node.tri_seq().len() implies found_in(
        #[trigger] node.tri_seq()[i],
        world,
    ) by {
        let t = node.tri_seq()[i];
        assert(node.tri_seq().to_multiset().count(t) > 0);
        assert(world.to_multiset().count(t) > 0);
        assert(world.contains(t));
        let j = choose|j: int| 0 <= j < world.len() && world[j] == t;
        assert(t.id == j);
    }
    lemma_kept_ids_full(node, world);
    lemma_flat_coverage(node, 0, 0, world);
    lemma_flat_nodes_len(node, 0, 0, world);
}

/// A tree's node count is its interior count plus its leaf count; with
/// [`lemma_flat_nodes_len`] the flat array length splits the same way.
pub proof fn lemma_node_count_split(node: BVHNode)
    ensures
        node.node_count() == node.internal_count() + node.leaf_count(),
    decreases node,
{
    match node {
        BVHNode::BVHNode { left, right, .. } => {
            lemma_node_count_split(*left);
            lemma_node_count_split(*right);
        },
        BVHNode::LeafNode { .. } => {},
    }
}

/// Idempotent flattening: the flat layout is a function of the tree and
/// the world buffer alone, so flattening the same tree twice gives
/// identical node and index arrays.
pub proof fn lemma_flatten_deterministic(
    node: BVHNode,
    world: Seq<Triangle>,
    nodes1: Seq<GpuBVHNode>,
    indices1: Seq<u32>,
    nodes2: Seq<GpuBVHNode>,
    indices2: Seq<u32>,
)
    requires
        nodes1 == node.flat_nodes(0, 0, world),
        indices1 == node.kept_ids(world),
        nodes2 == node.flat_nodes(0, 0, world),
        indices2 == node.kept_ids(world),
    ensures
        nodes1 == nodes2,
        indices1 == indices2,
{
}

/// Counts the triangles under a node.
pub fn tri_count(node: &BVHNode) -> (n: usize)
    requires
        node.tri_seq().len() <= usize::MAX,
    ensures
        n == node.tri_seq().len(),
    decreases *node,
{
    match node {
        BVHNode::LeafNode { objects, .. } => objects.len(),
        BVHNode::BVHNode { left, right, .. } => {
            let l = tri_count(left);
            let r = tri_count(right);
            l + r
        },
    }
}

/// Emits the flat records of one subtree, appending to the growing node
/// and index arrays; returns the subtree root's index in the node array.
fn flatten_node(
    node: &BVHNode,
    nodes: &mut Vec<GpuBVHNode>,
    triangle_indices: &mut Vec<u32>,
    world: &Vec<Triangle>,
) -> (idx: u32)
    requires
        old(nodes)@.len() + node.node_count() <= u32::MAX,
        old(triangle_indices)@.len() + node.tri_seq().len() <= u32::MAX,
    ensures
        final(nodes)@ == old(nodes)@ + node.flat_nodes(
            old(nodes)@.len() as int,
            old(triangle_indices)@.len() as int,
            world@,
        ),
        final(triangle_indices)@ == old(triangle_indices)@ + node.kept_ids(world@),
        idx == old(nodes)@.len(),
    decreases *node,
{
    let node_index: u32 = nodes.len() as u32;
    let placeholder = GpuBVHNode {
        min: Vec3::zero(),
        max: Vec3::zero(),
        left_first: 0,
        right_count: 0,
        is_leaf: 0,
    };
    nodes.push(placeholder);

    match node {
        BVHNode::LeafNode { aabb, objects } => {
            let first_tri: u32 = triangle_indices.len() as u32;
            let ghost base = triangle_indices@;
            let mut j: usize = 0;
            while j < objects.len()
                invariant
                    0 <= j <= objects@.len(),
                    triangle_indices@ == base + kept_ids_of_seq(objects@.take(j as int), world@),
                decreases objects@.len() - j,
            {
                let tri = objects[j];
                proof {
                    assert(objects@.take(j + 1).drop_last() =~= objects@.take(j as int));
                    assert(objects@.take(j + 1).last() == objects@[j as int]);
                }
                let id = tri.id as usize;
                if id < world.len() && world[id] == tri {
                    triangle_indices.push(tri.id);
                    proof {
                        assert(triangle_indices@ =~= base + kept_ids_of_seq(
                            objects@.take(j + 1),
                            world@,
                        ));
                    }
                } else {
                    proof {
                        assert(triangle_indices@ =~= base + kept_ids_of_seq(
                            objects@.take(j + 1),
                            world@,
                        ));
                    }
                }
                j = j + 1;
            }
            proof {
                assert(objects@.take(objects@.len() as int) =~= objects@);
                lemma_kept_ids_of_seq_len(objects@, world@);
            }
            let tri_count: u32 = (triangle_indices.len() as u32) - first_tri;
            let record = GpuBVHNode {
                min: aabb.min,
                max: aabb.max,
                left_first: first_tri,
                right_count: tri_count,
                is_leaf: 1,
            };
            nodes[node_index as usize] = record;
            proof {
                assert(nodes@ =~= old(nodes)@ + node.flat_nodes(
                    old(nodes)@.len() as int,
                    old(triangle_indices)@.len() as int,
                    world@,
                ));
            }
        },
        BVHNode::BVHNode { aabb, left, right } => {
            proof {
                lemma_kept_ids_len(**left, world@);
                lemma_kept_ids_len(**right, world@);
                lemma_flat_nodes_len(
                    **left,
                    old(nodes)@.len() + 1int,
                    old(triangle_indices)@.len() as int,
                    world@,
                );
                lemma_flat_nodes_len(
                    **right,
                    old(nodes)@.len() + 1int + (*left).node_count(),
                    old(triangle_indices)@.len() + (*left).kept_ids(world@).len() as int,
                    world@,
                );
            }
            let left_index = flatten_node(left, nodes, triangle_indices, world);
            let right_index = flatten_node(right, nodes, triangle_indices, world);
            let record = GpuBVHNode {
                min: aabb.min,
                max: aabb.max,
                left_first: left_index,
                right_count: right_index,
                is_leaf: 0,
            };
            nodes[node_index as usize] = record;
            proof {
                assert(nodes@ =~= old(nodes)@ + node.flat_nodes(
                    old(nodes)@.len() as int,
                    old(triangle_indices)@.len() as int,
                    world@,
                ));
                assert(triangle_indices@ =~= old(triangle_indices)@ + node.kept_ids(world@));
            }
        },
    }

    node_index
}

/// Flattens a tree against the world triangle buffer.
///
/// Returns the node array (root at index zero), the triangle-index array,
/// and a diagnostic count of leaf triangles that the buffer did not hold
/// (each such triangle is omitted from the index array).
pub fn flatten_bvh_for_gpu(bvh: &BVHNode, triangles: &Vec<Triangle>) -> (r: (
    Vec<GpuBVHNode>,
    Vec<u32>,
    usize,
))
    requires
        bvh.node_count() <= u32::MAX,
        bvh.tri_seq().len() <= u32::MAX,
    ensures
        r.0@ == bvh.flat_nodes(0, 0, triangles@),
        r.1@ == bvh.kept_ids(triangles@),
        r.2 == bvh.tri_seq().len() - bvh.kept_ids(triangles@).len(),
{
    let mut nodes: Vec<GpuBVHNode> = Vec::new();
    let mut triangle_indices: Vec<u32> = Vec::new();

    flatten_node(bvh, &mut nodes, &mut triangle_indices, triangles);

    proof {
        assert(nodes@ =~= bvh.flat_nodes(0, 0, triangles@));
        assert(triangle_indices@ =~= bvh.kept_ids(triangles@));
        lemma_kept_ids_len(*bvh, triangles@);
    }
    let total = tri_count(bvh);
    let missed = total - triangle_indices.len();
    (nodes, triangle_indices, missed)
}

} // verus!
