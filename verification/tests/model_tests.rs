use raytracer::color::Color;
use raytracer::material::Material;
use raytracer::model::{Face, Mesh, Vertex};
use raytracer::vec3::Vec3;

fn vert(x: i32, y: i32, z: i32) -> Vertex {
    Vertex::new(Vec3::new(x, y, z), Vec3::new(0, 1, 0))
}

fn pentagon() -> Face {
    let mut f = Face::new();
    f.append_vertex(vert(0, 0, 0));
    f.append_vertex(vert(10, 0, 0));
    f.append_vertex(vert(10, 10, 0));
    f.append_vertex(vert(5, 15, 0));
    f.append_vertex(vert(0, 10, 0));
    f
}

#[test]
fn fan_triangulation_of_a_pentagon() {
    let tris = pentagon().to_tris();
    assert_eq!(tris.len(), 3);
    // Every triangle fans out from vertex zero.
    for t in &tris {
        assert_eq!(t.v0(), Vec3::new(0, 0, 0));
    }
    assert_eq!(tris[0].v1(), Vec3::new(10, 0, 0));
    assert_eq!(tris[0].v2(), Vec3::new(10, 10, 0));
    assert_eq!(tris[1].v1(), Vec3::new(10, 10, 0));
    assert_eq!(tris[1].v2(), Vec3::new(5, 15, 0));
    assert_eq!(tris[2].v1(), Vec3::new(5, 15, 0));
    assert_eq!(tris[2].v2(), Vec3::new(0, 10, 0));
}

#[test]
fn degenerate_faces_yield_nothing() {
    let mut f = Face::new();
    assert_eq!(f.to_tris().len(), 0);
    f.append_vertex(vert(0, 0, 0));
    f.append_vertex(vert(1, 0, 0));
    assert_eq!(f.to_tris().len(), 0);
    f.append_vertex(vert(0, 1, 0));
    assert_eq!(f.to_tris().len(), 1);
}

#[test]
fn mesh_transform_scales_then_translates() {
    let mut f = Face::new();
    f.append_vertex(vert(1, 2, 3));
    f.append_vertex(vert(4, 5, 6));
    f.append_vertex(vert(7, 8, 9));
    let mut m = Mesh::new();
    m.append_face(f);
    m.scale = 2;
    m.position = Vec3::new(100, 200, 300);
    let tris = m.get_triangles();
    assert_eq!(tris.len(), 1);
    assert_eq!(tris[0].v0(), Vec3::new(102, 204, 306));
    assert_eq!(tris[0].v1(), Vec3::new(108, 210, 312));
    assert_eq!(tris[0].v2(), Vec3::new(114, 216, 318));
}

#[test]
fn triangle_ids_number_the_emission_order() {
    let mut m = Mesh::new();
    m.append_face(pentagon());
    m.append_face(pentagon());
    let tris = m.get_triangles();
    assert_eq!(tris.len(), 6);
    for (k, t) in tris.iter().enumerate() {
        assert_eq!(t.id, k as u32);
    }
}

#[test]
fn transform_changes_show_in_later_calls() {
    let mut m = Mesh::new();
    m.append_face(pentagon());
    let before = m.get_triangles();
    m.position = Vec3::new(50, 0, 0);
    let after = m.get_triangles();
    assert_eq!(after[0].v0().x, before[0].v0().x + 50);
}

#[test]
fn set_material_paints_every_face() {
    let mut m = Mesh::new();
    m.append_face(pentagon());
    m.append_face(pentagon());
    let red = Material::new(Color::new(900, 100, 100), 1000, 0, 0);
    m.set_material(red);
    for t in m.get_triangles() {
        assert_eq!(*t.material(), red);
    }
}

#[test]
fn mesh_box_bounds_all_vertices() {
    let mut m = Mesh::new();
    m.append_face(pentagon());
    m.scale = 3;
    m.position = Vec3::new(-10, 0, 5);
    let b = m.to_aabb();
    assert_eq!(b.min, Vec3::new(-10, 0, 5));
    assert_eq!(b.max, Vec3::new(20, 45, 5));
}
