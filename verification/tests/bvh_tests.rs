use raytracer::aabb::{Axis, AABB};
use raytracer::bvh::{build_bvh, traverse_leaf_nodes, BVHNode};
use raytracer::material::Material;
use raytracer::objects::Triangle;
use raytracer::ray::Ray;
use raytracer::vec3::Vec3;

fn tri(v0: (i32, i32, i32), v1: (i32, i32, i32), v2: (i32, i32, i32), id: u32) -> Triangle {
    Triangle::new_with_id(
        Vec3::new(v0.0, v0.1, v0.2),
        Vec3::new(v1.0, v1.1, v1.2),
        Vec3::new(v2.0, v2.1, v2.2),
        Material::default(),
        id,
    )
}

/// Four triangles whose centroids straddle the X axis symmetrically.
fn quad_mesh_triangles() -> Vec<Triangle> {
    vec![
        tri((-1200, 0, 0), (-1000, 100, 0), (-800, 0, 100), 0),
        tri((-1200, 0, 200), (-1000, 100, 200), (-800, 0, 300), 1),
        tri((800, 0, 0), (1000, 100, 0), (1200, 0, 100), 2),
        tri((800, 0, 200), (1000, 100, 200), (1200, 0, 300), 3),
    ]
}

#[test]
fn small_set_becomes_single_leaf() {
    let tris = quad_mesh_triangles();
    let node = build_bvh(tris.clone(), 20);
    match node {
        BVHNode::LeafNode { objects, .. } => {
            assert_eq!(objects.len(), 4);
            for (i, t) in objects.iter().enumerate() {
                assert_eq!(*t, tris[i]);
            }
        }
        BVHNode::BVHNode { .. } => panic!("four triangles under the bound must form one leaf"),
    }
}

#[test]
fn four_triangles_threshold_two_split_evenly() {
    let tris = quad_mesh_triangles();
    let node = build_bvh(tris, 2);
    match node {
        BVHNode::BVHNode { left, right, .. } => {
            match (*left, *right) {
                (
                    BVHNode::LeafNode { objects: l, .. },
                    BVHNode::LeafNode { objects: r, .. },
                ) => {
                    assert_eq!(l.len(), 2);
                    assert_eq!(r.len(), 2);
                    let mut ids: Vec<u32> =
                        l.iter().chain(r.iter()).map(|t| t.id).collect();
                    ids.sort();
                    assert_eq!(ids, vec![0, 1, 2, 3]);
                }
                _ => panic!("both children must be leaves at threshold two"),
            }
        }
        BVHNode::LeafNode { .. } => panic!("four triangles over the bound must split"),
    }
}

#[test]
fn coincident_triangles_terminate() {
    // A thousand identical triangles defeat the mean split; the count
    // bisection must still finish and keep every one.
    let mut tris = Vec::new();
    for i in 0..1000 {
        tris.push(tri((0, 0, 0), (10, 0, 0), (0, 10, 0), i));
    }
    let node = build_bvh(tris, 2);
    let leaves = traverse_leaf_nodes(&node);
    let mut total = 0;
    for (_, objects) in &leaves {
        assert!(objects.len() <= 2);
        total += objects.len();
    }
    assert_eq!(total, 1000);
}

#[test]
fn leaves_lie_within_their_boxes_and_the_root() {
    let tris = quad_mesh_triangles();
    let node = build_bvh(tris, 1);
    let (root_min, root_max) = match &node {
        BVHNode::BVHNode { aabb, .. } => (aabb.min, aabb.max),
        BVHNode::LeafNode { aabb, .. } => (aabb.min, aabb.max),
    };
    let leaves = traverse_leaf_nodes(&node);
    assert!(leaves.len() >= 2);
    for (aabb, objects) in &leaves {
        // Leaf box inside the root box.
        assert!(root_min.x <= aabb.min.x && aabb.max.x <= root_max.x);
        assert!(root_min.y <= aabb.min.y && aabb.max.y <= root_max.y);
        assert!(root_min.z <= aabb.min.z && aabb.max.z <= root_max.z);
        // Every vertex inside the leaf box.
        for t in objects {
            for v in [t.v0, t.v1, t.v2] {
                assert!(aabb.min.x <= v.x && v.x <= aabb.max.x);
                assert!(aabb.min.y <= v.y && v.y <= aabb.max.y);
                assert!(aabb.min.z <= v.z && v.z <= aabb.max.z);
            }
        }
    }
}

#[test]
fn biggest_axis_prefers_x_then_y() {
    let wide = AABB::new(Vec3::new(0, 0, 0), Vec3::new(10, 5, 5));
    assert_eq!(wide.get_biggest_axis(), Axis::X);
    let tall = AABB::new(Vec3::new(0, 0, 0), Vec3::new(5, 10, 5));
    assert_eq!(tall.get_biggest_axis(), Axis::Y);
    let deep = AABB::new(Vec3::new(0, 0, 0), Vec3::new(5, 5, 10));
    assert_eq!(deep.get_biggest_axis(), Axis::Z);
    // Strict comparisons: on a full tie Z wins, on an X/Y tie Y wins.
    let cube = AABB::new(Vec3::new(0, 0, 0), Vec3::new(5, 5, 5));
    assert_eq!(cube.get_biggest_axis(), Axis::Z);
    let slab = AABB::new(Vec3::new(0, 0, 0), Vec3::new(10, 10, 5));
    assert_eq!(slab.get_biggest_axis(), Axis::Y);
}

#[test]
fn edges_are_the_twelve_box_edges() {
    let b = AABB::new(Vec3::new(0, 0, 0), Vec3::new(1, 2, 3));
    let es = b.edges();
    assert_eq!(es.len(), 12);
    // Every edge differs in exactly one coordinate.
    for (a, c) in es.iter() {
        let diffs = [(a.x != c.x) as u32, (a.y != c.y) as u32, (a.z != c.z) as u32];
        assert_eq!(diffs.iter().sum::<u32>(), 1);
    }
    assert_eq!(es[0], (Vec3::new(0, 0, 0), Vec3::new(0, 0, 3)));
}

#[test]
fn slab_test_hits_and_misses() {
    let b = AABB::new(Vec3::new(0, 0, 0), Vec3::new(1000, 1000, 1000));
    // Straight through the middle.
    assert!(b.hit(&Ray::new(Vec3::new(-1000, 500, 500), Vec3::new(1, 0, 0))));
    // Box behind the ray.
    assert!(!b.hit(&Ray::new(Vec3::new(-1000, 500, 500), Vec3::new(-1, 0, 0))));
    // Parallel to the box on an axis, origin outside that slab.
    assert!(!b.hit(&Ray::new(Vec3::new(-1000, 2000, 500), Vec3::new(1, 0, 0))));
    // Starting inside.
    assert!(b.hit(&Ray::new(Vec3::new(500, 500, 500), Vec3::new(0, 0, 1))));
    // Diagonal hit.
    assert!(b.hit(&Ray::new(Vec3::new(-500, -500, -500), Vec3::new(1, 1, 1))));
    // Aimed past the corner.
    assert!(!b.hit(&Ray::new(Vec3::new(-500, 0, 0), Vec3::new(1, 10, 0))));
    // Zero direction with the origin inside.
    assert!(b.hit(&Ray::new(Vec3::new(500, 500, 500), Vec3::new(0, 0, 0))));
    // Zero direction with the origin outside.
    assert!(!b.hit(&Ray::new(Vec3::new(2000, 500, 500), Vec3::new(0, 0, 0))));
}
