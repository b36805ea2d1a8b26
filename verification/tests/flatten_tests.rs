use raytracer::bvh::build_bvh;
use raytracer::model::{Face, Mesh, Vertex};
use raytracer::flatten::flatten_bvh_for_gpu;
use raytracer::material::Material;
use raytracer::objects::Triangle;
use raytracer::vec3::Vec3;

fn tri(v0: (i32, i32, i32), v1: (i32, i32, i32), v2: (i32, i32, i32), id: u32) -> Triangle {
    Triangle::new_with_id(
        Vec3::new(v0.0, v0.1, v0.2),
        Vec3::new(v1.0, v1.1, v1.2),
        Vec3::new(v2.0, v2.1, v2.2),
        Material::default(),
        id,
    )
}

fn quad_world() -> Vec<Triangle> {
    vec![
        tri((-1200, 0, 0), (-1000, 100, 0), (-800, 0, 100), 0),
        tri((-1200, 0, 200), (-1000, 100, 200), (-800, 0, 300), 1),
        tri((800, 0, 0), (1000, 100, 0), (1200, 0, 100), 2),
        tri((800, 0, 200), (1000, 100, 200), (1200, 0, 300), 3),
    ]
}

#[test]
fn quad_scene_flattens_to_one_internal_two_leaves() {
    let world = quad_world();
    let bvh = build_bvh(world.clone(), 2);
    let (nodes, indices, missed) = flatten_bvh_for_gpu(&bvh, &world);

    // One interior record plus two leaf records; the root at slot zero.
    assert_eq!(nodes.len(), 3);
    assert_eq!(nodes[0].is_leaf, 0);
    assert_eq!(nodes[1].is_leaf, 1);
    assert_eq!(nodes[2].is_leaf, 1);
    // The root's child fields are the children's node indices.
    assert_eq!(nodes[0].left_first, 1);
    assert_eq!(nodes[0].right_count, 2);

    // Each leaf owns two triangles in a contiguous range.
    assert_eq!(nodes[1].left_first, 0);
    assert_eq!(nodes[1].right_count, 2);
    assert_eq!(nodes[2].left_first, 2);
    assert_eq!(nodes[2].right_count, 2);

    // Index array: all four triangles, no duplicates, nothing missed.
    assert_eq!(indices.len(), 4);
    assert_eq!(missed, 0);
    let mut sorted = indices.clone();
    sorted.sort();
    assert_eq!(sorted, vec![0, 1, 2, 3]);

    // Coverage: leaf counts sum to the triangle count.
    let sum: u32 = nodes.iter().filter(|n| n.is_leaf == 1).map(|n| n.right_count).sum();
    assert_eq!(sum, 4);

    // The root record carries the whole scene's box.
    assert_eq!(nodes[0].min, Vec3::new(-1200, 0, 0));
    assert_eq!(nodes[0].max, Vec3::new(1200, 100, 300));
}

#[test]
fn flattening_twice_is_identical() {
    let world = quad_world();
    let bvh = build_bvh(world.clone(), 2);
    let (nodes1, indices1, missed1) = flatten_bvh_for_gpu(&bvh, &world);
    let (nodes2, indices2, missed2) = flatten_bvh_for_gpu(&bvh, &world);
    assert_eq!(nodes1, nodes2);
    assert_eq!(indices1, indices2);
    assert_eq!(missed1, missed2);
}

#[test]
fn unmatched_triangles_are_dropped_and_counted() {
    let world = quad_world();
    // Build the tree from a world where one triangle's id points at a
    // slot holding a different value: the lookup must drop it.
    let mut drifted = world.clone();
    drifted[3] = tri((800, 0, 200), (1000, 100, 200), (1200, 0, 300), 2);
    let bvh = build_bvh(drifted, 2);
    let (nodes, indices, missed) = flatten_bvh_for_gpu(&bvh, &world);
    assert_eq!(missed, 1);
    assert_eq!(indices.len(), 3);
    let sum: u32 = nodes.iter().filter(|n| n.is_leaf == 1).map(|n| n.right_count).sum();
    assert_eq!(sum, 3);
}

#[test]
fn single_leaf_flattens_to_one_record() {
    let world = quad_world();
    let bvh = build_bvh(world.clone(), 20);
    let (nodes, indices, missed) = flatten_bvh_for_gpu(&bvh, &world);
    assert_eq!(nodes.len(), 1);
    assert_eq!(nodes[0].is_leaf, 1);
    assert_eq!(nodes[0].left_first, 0);
    assert_eq!(nodes[0].right_count, 4);
    assert_eq!(indices, vec![0, 1, 2, 3]);
    assert_eq!(missed, 0);
}

#[test]
fn mesh_pipeline_drops_nothing() {
    // A mesh of two quads: triangulation numbers the triangles, the tree
    // holds exactly those, and flattening finds every one by its id.
    let mut mesh = Mesh::new();
    for k in 0..2 {
        let z = k * 100;
        let mut f = Face::new();
        f.append_vertex(Vertex::new(Vec3::new(0, 0, z), Vec3::new(0, 1000, 0)));
        f.append_vertex(Vertex::new(Vec3::new(100 + k, 0, z), Vec3::new(0, 1000, 0)));
        f.append_vertex(Vertex::new(Vec3::new(100, 100, z), Vec3::new(0, 1000, 0)));
        f.append_vertex(Vertex::new(Vec3::new(0, 100 + k, z), Vec3::new(0, 1000, 0)));
        mesh.append_face(f);
    }
    let world = mesh.get_triangles();
    assert_eq!(world.len(), 4);
    let bvh = raytracer::bvh::construct_bvh(&mesh);
    let (nodes, indices, missed) = flatten_bvh_for_gpu(&bvh, &world);
    assert_eq!(missed, 0);
    assert_eq!(indices.len(), 4);
    let sum: u32 = nodes.iter().filter(|n| n.is_leaf == 1).map(|n| n.right_count).sum();
    assert_eq!(sum, 4);
}
