use raytracer::color::Color;
use raytracer::gpu_types::GpuHitInfo;
use raytracer::material::Material;
use raytracer::model::{Face, Mesh, Vertex};
use raytracer::objects::{Plane, Sphere, Triangle};
use raytracer::ray::Ray;
use raytracer::scene::{
    convert_hit_info, create_scene, extract_scene_data, triangle_to_gpu_triangle, Scene,
    SceneObject,
};
use raytracer::vec3::Vec3;

fn sample_triangle() -> Triangle {
    Triangle::new(
        Vec3::new(0, 0, 0),
        Vec3::new(10, 0, 0),
        Vec3::new(0, 10, 0),
        Material::new(Color::new(900, 100, 100), 500, 250, 0),
    )
}

fn sample_mesh() -> Mesh {
    let mut f = Face::new();
    f.append_vertex(Vertex::new(Vec3::new(0, 0, 0), Vec3::new(0, 1, 0)));
    f.append_vertex(Vertex::new(Vec3::new(10, 0, 0), Vec3::new(0, 1, 0)));
    f.append_vertex(Vertex::new(Vec3::new(0, 10, 0), Vec3::new(0, 1, 0)));
    f.append_vertex(Vertex::new(Vec3::new(-10, 10, 0), Vec3::new(0, 1, 0)));
    let mut m = Mesh::new();
    m.append_face(f);
    m
}

#[test]
fn export_sorts_objects_by_kind() {
    let mut scene = Scene::new();
    scene.add_object(SceneObject::Sphere(Sphere::new(
        Vec3::new(1, 2, 3),
        500,
        Material::default(),
    )));
    scene.add_object(SceneObject::Triangle(sample_triangle()));
    scene.add_object(SceneObject::Plane(Plane::new(
        Vec3::new(0, -1, 0),
        Vec3::new(0, 1, 0),
        5000,
        5000,
        Material::default(),
    )));
    scene.add_object(SceneObject::Mesh(sample_mesh()));

    let (spheres, triangles, planes) = scene.export_gpu_data();
    assert_eq!(spheres.len(), 1);
    assert_eq!(planes.len(), 1);
    // One lone triangle plus the mesh's two fan triangles.
    assert_eq!(triangles.len(), 3);
    assert_eq!(spheres[0].center, Vec3::new(1, 2, 3));
    assert_eq!(spheres[0].radius, 500);
    assert_eq!(planes[0].width, 5000);
    assert_eq!(triangles[0].albedo, Color::new(900, 100, 100));
    assert_eq!(triangles[1].v0, Vec3::new(0, 0, 0));
    assert_eq!(triangles[2].v2, Vec3::new(-10, 10, 0));
}

#[test]
fn triangle_record_copies_geometry_and_material() {
    let t = sample_triangle();
    let g = triangle_to_gpu_triangle(&t);
    assert_eq!(g.v0, Vec3::new(0, 0, 0));
    assert_eq!(g.v1, Vec3::new(10, 0, 0));
    assert_eq!(g.v2, Vec3::new(0, 10, 0));
    assert_eq!(g.albedo, Color::new(900, 100, 100));
    assert_eq!(g.roughness, 500);
    assert_eq!(g.metallic, 250);
    assert_eq!(g.emission, 0);
}

#[test]
fn extraction_pads_empty_kinds_and_appends_a_sentinel_plane() {
    let scene = Scene::new();
    let (spheres, triangles, planes) = extract_scene_data(&scene);
    assert_eq!(spheres.len(), 1);
    assert_eq!(spheres[0].radius, 0);
    assert_eq!(triangles.len(), 1);
    assert_eq!(triangles[0].v0, Vec3::new(0, 0, 0));
    assert_eq!(planes.len(), 1);
    assert_eq!(planes[0].normal, Vec3::new(0, 1, 0));
    assert_eq!(planes[0].width, 0);
}

#[test]
fn extraction_keeps_real_objects_unpadded() {
    let mut scene = Scene::new();
    scene.add_object(SceneObject::Sphere(Sphere::new(
        Vec3::new(0, 0, 0),
        100,
        Material::default(),
    )));
    scene.add_object(SceneObject::Triangle(sample_triangle()));
    let (spheres, triangles, planes) = extract_scene_data(&scene);
    assert_eq!(spheres.len(), 1);
    assert_eq!(spheres[0].radius, 100);
    assert_eq!(triangles.len(), 1);
    assert_eq!(triangles[0].roughness, 500);
    // The sentinel plane is always appended.
    assert_eq!(planes.len(), 1);
}

#[test]
fn demonstration_scene_is_the_closed_room() {
    let scene = create_scene(sample_mesh());
    let objects = scene.get_objects();
    assert_eq!(objects.len(), 7);
    // Five walls and one emitter panel.
    let mut plane_count = 0;
    let mut emitters = 0;
    for o in objects.iter() {
        if let SceneObject::Plane(p) = o {
            plane_count += 1;
            if p.material().emission > 0 {
                emitters += 1;
                assert_eq!(p.material().emission, 1000);
                assert_eq!(p.center(), Vec3::new(0, 2499, 0));
                assert_eq!(p.width(), 3000);
            }
        }
    }
    assert_eq!(plane_count, 6);
    assert_eq!(emitters, 1);
    // The mesh sits on the floor at double scale, matte white.
    match &objects[6] {
        SceneObject::Mesh(m) => {
            assert_eq!(m.position, Vec3::new(0, -2500, 0));
            assert_eq!(m.scale, 2);
            assert_eq!(m.faces[0].material.albedo, Color::new(900, 900, 900));
            assert_eq!(m.faces[0].material.roughness, 1000);
        }
        _ => panic!("the mesh must be the last object"),
    }
}

#[test]
fn gpu_hit_records_convert_back() {
    let ray = Ray::new(Vec3::new(0, 0, 0), Vec3::new(0, 0, -1));
    let gpu = GpuHitInfo {
        has_hit: 1,
        t: 1500,
        pos: Vec3::new(0, 0, -1500),
        normal: Vec3::new(0, 0, 1000),
        albedo: Color::new(800, 700, 600),
        emission: 0,
        metallic: 100,
        roughness: 900,
    };
    let h = convert_hit_info(&gpu, &ray);
    assert!(h.has_hit);
    assert_eq!(h.t, 1500);
    assert_eq!(h.pos, Vec3::new(0, 0, -1500));
    assert_eq!(h.sent_ray, ray);
    assert_eq!(h.material.albedo, Color::new(800, 700, 600));
    assert_eq!(h.material.roughness, 900);

    let miss = GpuHitInfo { has_hit: 0, ..gpu };
    assert!(!convert_hit_info(&miss, &ray).has_hit);
}
