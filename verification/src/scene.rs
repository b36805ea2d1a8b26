//! The scene: a closed list of object kinds, and its export into the
//! flat per-kind buffers the data-parallel consumer binds.

use vstd::prelude::*;
use crate::color::Color;
use crate::gpu_types::{GpuHitInfo, GpuPlane, GpuSphere, GpuTriangle};
use crate::material::Material;
use crate::model::{faces_tris, Mesh};
use crate::objects::{HitInfo, Plane, Sphere, Triangle};
use crate::ray::Ray;
use crate::vec3::Vec3;

verus! {

/// One object of the scene: the four kinds the renderer knows.
pub enum SceneObject {
    Sphere(Sphere),
    Plane(Plane),
    Triangle(Triangle),
    Mesh(Mesh),
}

pub struct Scene {
    pub objects: Vec<SceneObject>,
}

/// The export record of a sphere.
pub open spec fn sphere_record(s: Sphere) -> GpuSphere {
    GpuSphere {
        center: s.pos,
        radius: s.radius,
        albedo: s.material.albedo,
        emission: s.material.emission,
        metallic: s.material.metallic,
        roughness: s.material.roughness,
    }
}

/// The export record of a plane.
pub open spec fn plane_record(p: Plane) -> GpuPlane {
    GpuPlane {
        center: p.center,
        normal: p.normal,
        width: p.width,
        length: p.length,
        albedo: p.material.albedo,
        emission: p.material.emission,
        metallic: p.material.metallic,
        roughness: p.material.roughness,
    }
}

/// The export record of a triangle.
pub open spec fn tri_record(t: Triangle) -> GpuTriangle {
    GpuTriangle {
        v0: t.v0,
        v1: t.v1,
        v2: t.v2,
        albedo: t.material.albedo,
        emission: t.material.emission,
        metallic: t.material.metallic,
        roughness: t.material.roughness,
    }
}

/// The triangle records of one object: a lone triangle exports itself, a
/// mesh exports every world triangle, other kinds none.
pub open spec fn object_tri_records(o: SceneObject) -> Seq<GpuTriangle> {
    match o {
        SceneObject::Triangle(t) => seq![tri_record(t)],
        SceneObject::Mesh(m) => Seq::new(
            m.tris_spec().len(),
            |i: int| tri_record(m.tris_spec()[i]),
        ),
        SceneObject::Sphere(_) => Seq::empty(),
        SceneObject::Plane(_) => Seq::empty(),
    }
}

/// The sphere records of an object list, in order.
pub open spec fn export_spheres(objs: Seq<SceneObject>) -> Seq<GpuSphere>
    decreases objs.len(),
{
    if objs.len() == 0 {
        Seq::empty()
    } else {
        export_spheres(objs.drop_last()) + match objs.last() {
            SceneObject::Sphere(s) => seq![sphere_record(s)],
            _ => Seq::empty(),
        }
    }
}

/// The plane records of an object list, in order.
pub open spec fn export_planes(objs: Seq<SceneObject>) -> Seq<GpuPlane>
    decreases objs.len(),
{
    if objs.len() == 0 {
        Seq::empty()
    } else {
        export_planes(objs.drop_last()) + match objs.last() {
            SceneObject::Plane(p) => seq![plane_record(p)],
            _ => Seq::empty(),
        }
    }
}

/// The triangle records of an object list, in order, meshes expanded.
pub open spec fn export_triangles(objs: Seq<SceneObject>) -> Seq<GpuTriangle>
    decreases objs.len(),
{
    if objs.len() == 0 {
        Seq::empty()
    } else {
        export_triangles(objs.drop_last()) + object_tri_records(objs.last())
    }
}

/// Every mesh of the list can be triangulated: in transform range and
/// with an id-addressable triangle count.
pub open spec fn objects_in_range(objs: Seq<SceneObject>) -> bool {
    forall|i: int|
        0 <= i < objs.len() ==> match #[trigger] objs[i] {
            SceneObject::Mesh(m) => m.in_range() && faces_tris(m.faces@).len() <= u32::MAX,
            _ => true,
        }
}

impl Scene {
    pub fn new() -> (s: Scene)
        ensures
            s.objects@ =~= Seq::<SceneObject>::empty(),
    {
        Scene { objects: Vec::new() }
    }

    pub fn add_object(&mut self, object: SceneObject)
        ensures
            final(self).objects@ == old(self).objects@.push(object),
    {
        self.objects.push(object);
    }

    pub fn get_objects(&self) -> (r: &Vec<SceneObject>)
        ensures
            r@ == self.objects@,
    {
        &self.objects
    }

    /// Exports the scene into one flat buffer per object kind, each in
    /// scene order, meshes expanded into their world triangles.
    pub fn export_gpu_data(&self) -> (r: (Vec<GpuSphere>, Vec<GpuTriangle>, Vec<GpuPlane>))
        requires
            objects_in_range(self.objects@),
        ensures
            r.0@ == export_spheres(self.objects@),
            r.1@ == export_triangles(self.objects@),
            r.2@ == export_planes(self.objects@),
    {
        let mut spheres: Vec<GpuSphere> = Vec::new();
        let mut triangles: Vec<GpuTriangle> = Vec::new();
        let mut planes: Vec<GpuPlane> = Vec::new();

        let mut k: usize = 0;
        proof {
            assert(spheres@ =~= export_spheres(self.objects@.take(0)));
            assert(triangles@ =~= export_triangles(self.objects@.take(0)));
            assert(planes@ =~= export_planes(self.objects@.take(0)));
        }
        while k < self.objects.len()
            invariant
                0 <= k <= self.objects@.len(),
                objects_in_range(self.objects@),
                spheres@ == export_spheres(self.objects@.take(k as int)),
                triangles@ == export_triangles(self.objects@.take(k as int)),
                planes@ == export_planes(self.objects@.take(k as int)),
            decreases self.objects@.len() - k,
        {
            proof {
                assert(self.objects@.take(k + 1).drop_last() =~= self.objects@.take(k as int));
                assert(self.objects@.take(k + 1).last() == self.objects@[k as int]);
            }
            match &self.objects[k] {
                SceneObject::Sphere(sphere) => {
                    spheres.push(
                        GpuSphere {
                            center: sphere.pos,
                            radius: sphere.radius,
                            albedo: sphere.material.albedo,
                            emission: sphere.material.emission,
                            metallic: sphere.material.metallic,
                            roughness: sphere.material.roughness,
                        },
                    );
                },
                SceneObject::Plane(plane) => {
                    planes.push(
                        GpuPlane {
                            center: plane.center,
                            normal: plane.normal,
                            width: plane.width,
                            length: plane.length,
                            albedo: plane.material.albedo,
                            emission: plane.material.emission,
                            metallic: plane.material.metallic,
                            roughness: plane.material.roughness,
                        },
                    );
                },
                SceneObject::Triangle(triangle) => {
                    triangles.push(triangle_to_gpu_triangle(triangle));
                },
                SceneObject::Mesh(mesh) => {
                    let tris = mesh.get_triangles();
                    let ghost before = triangles@;
                    let mut j: usize = 0;
                    while j < tris.len()
                        invariant
                            0 <= j <= tris@.len(),
                            tris@ == mesh_of(self.objects@[k as int]).tris_spec(),
                            0 <= k < self.objects@.len(),
                            self.objects@[k as int] is Mesh,
                            triangles@ == before + object_tri_records(
                                self.objects@[k as int],
                            ).take(j as int),
                        decreases tris@.len() - j,
                    {
                        triangles.push(triangle_to_gpu_triangle(&tris[j]));
                        proof {
                            assert(triangles@ =~= before + object_tri_records(
                                self.objects@[k as int],
                            ).take(j + 1));
                        }
                        j = j + 1;
                    }
                    proof {
                        assert(object_tri_records(self.objects@[k as int]).take(
                            tris@.len() as int,
                        ) =~= object_tri_records(self.objects@[k as int]));
                    }
                },
            }
            proof {
                assert(spheres@ =~= export_spheres(self.objects@.take(k + 1)));
                assert(triangles@ =~= export_triangles(self.objects@.take(k + 1)));
                assert(planes@ =~= export_planes(self.objects@.take(k + 1)));
            }
            k = k + 1;
        }
        proof {
            assert(self.objects@.take(self.objects@.len() as int) =~= self.objects@);
        }
        (spheres, triangles, planes)
    }
}

/// The mesh inside a scene object known to be one.
pub open spec fn mesh_of(o: SceneObject) -> Mesh
    recommends
        o is Mesh,
{
    match o {
        SceneObject::Mesh(m) => m,
        _ => arbitrary(),
    }
}

/// Converts one triangle to its export record.
pub fn triangle_to_gpu_triangle(tri: &Triangle) -> (r: GpuTriangle)
    ensures
        r == tri_record(*tri),
{
    GpuTriangle {
        v0: tri.v0,
        v1: tri.v1,
        v2: tri.v2,
        albedo: tri.material.albedo,
        emission: tri.material.emission,
        metallic: tri.material.metallic,
        roughness: tri.material.roughness,
    }
}

/// Exports the scene and pads the buffers as the compute bindings want
/// them: a placeholder sphere or triangle where a kind is absent (a
/// binding may not be empty), and one trailing sentinel plane always.
pub fn extract_scene_data(scene: &Scene) -> (r: (Vec<GpuSphere>, Vec<GpuTriangle>, Vec<GpuPlane>))
    requires
        objects_in_range(scene.objects@),
    ensures
        ({
            let s = export_spheres(scene.objects@);
            r.0@ == if s.len() == 0 {
                seq![placeholder_sphere()]
            } else {
                s
            }
        }),
        ({
            let t = export_triangles(scene.objects@);
            r.1@ == if t.len() == 0 {
                seq![placeholder_triangle()]
            } else {
                t
            }
        }),
        r.2@ == export_planes(scene.objects@).push(sentinel_plane()),
{
    let (mut spheres, mut triangles, mut planes) = scene.export_gpu_data();

    if spheres.len() == 0 {
        spheres.push(
            GpuSphere {
                center: Vec3::zero(),
                radius: 0,
                albedo: Color::black(),
                emission: 0,
                metallic: 0,
                roughness: 0,
            },
        );
        proof {
            assert(spheres@ =~= seq![placeholder_sphere()]);
        }
    }
    if triangles.len() == 0 {
        triangles.push(
            GpuTriangle {
                v0: Vec3::zero(),
                v1: Vec3::zero(),
                v2: Vec3::zero(),
                albedo: Color::black(),
                emission: 0,
                metallic: 0,
                roughness: 0,
            },
        );
        proof {
            assert(triangles@ =~= seq![placeholder_triangle()]);
        }
    }
    planes.push(
        GpuPlane {
            center: Vec3::zero(),
            normal: Vec3::new(0, 1, 0),
            width: 0,
            length: 0,
            albedo: Color::black(),
            emission: 0,
            metallic: 0,
            roughness: 0,
        },
    );

    (spheres, triangles, planes)
}

/// The all-zero sphere record bound where a scene has no spheres.
pub open spec fn placeholder_sphere() -> GpuSphere {
    GpuSphere {
        center: Vec3 { x: 0i32, y: 0i32, z: 0i32 },
        radius: 0i32,
        albedo: Color::black_spec(),
        emission: 0u64,
        metallic: 0u64,
        roughness: 0u64,
    }
}

/// The all-zero triangle record bound where a scene has no triangles.
pub open spec fn placeholder_triangle() -> GpuTriangle {
    GpuTriangle {
        v0: Vec3 { x: 0i32, y: 0i32, z: 0i32 },
        v1: Vec3 { x: 0i32, y: 0i32, z: 0i32 },
        v2: Vec3 { x: 0i32, y: 0i32, z: 0i32 },
        albedo: Color::black_spec(),
        emission: 0u64,
        metallic: 0u64,
        roughness: 0u64,
    }
}

/// The sentinel plane appended after every export.
pub open spec fn sentinel_plane() -> GpuPlane {
    GpuPlane {
        center: Vec3 { x: 0i32, y: 0i32, z: 0i32 },
        normal: Vec3 { x: 0i32, y: 1i32, z: 0i32 },
        width: 0i32,
        length: 0i32,
        albedo: Color::black_spec(),
        emission: 0u64,
        metallic: 0u64,
        roughness: 0u64,
    }
}

/// One wall of the demonstration room: a five-by-five matte panel.
pub open spec fn room_wall(center: Vec3, normal: Vec3, albedo: Color) -> Plane {
    Plane {
        center,
        normal,
        width: 5000i32,
        length: 5000i32,
        material: Material { albedo, roughness: 1000u64, metallic: 0u64, emission: 0u64 },
    }
}

/// The emitter panel just under the ceiling.
pub open spec fn room_light() -> Plane {
    Plane {
        center: Vec3 { x: 0i32, y: 2499i32, z: 0i32 },
        normal: Vec3 { x: 0i32, y: -1i32, z: 0i32 },
        width: 3000i32,
        length: 3000i32,
        material: Material {
            albedo: Color::white_spec(),
            roughness: 0u64,
            metallic: 0u64,
            emission: 1000u64,
        },
    }
}

/// The material the demonstration scene paints its mesh with.
pub open spec fn scene_mesh_material() -> Material {
    Material {
        albedo: Color { r: 900u64, g: 900u64, b: 900u64 },
        roughness: 1000u64,
        metallic: 0u64,
        emission: 0u64,
    }
}

/// Builds the demonstration scene: a closed room of five matte walls, an
/// emitter panel under the ceiling, and the given mesh placed on the
/// floor at double scale wearing the scene's matte white material.
/// Distances are thousandths of a world unit.
pub fn create_scene(mesh: Mesh) -> (r: Scene)
    ensures
        r.objects@.len() == 7,
        r.objects@[0] == SceneObject::Plane(
            room_wall(
                Vec3 { x: 0i32, y: -2500i32, z: 0i32 },
                Vec3 { x: 0i32, y: 1i32, z: 0i32 },
                Color { r: 800u64, g: 800u64, b: 800u64 },
            ),
        ),
        r.objects@[1] == SceneObject::Plane(
            room_wall(
                Vec3 { x: 0i32, y: 2500i32, z: 0i32 },
                Vec3 { x: 0i32, y: -1i32, z: 0i32 },
                Color { r: 800u64, g: 800u64, b: 800u64 },
            ),
        ),
        r.objects@[2] == SceneObject::Plane(
            room_wall(
                Vec3 { x: 0i32, y: 0i32, z: -2500i32 },
                Vec3 { x: 0i32, y: 0i32, z: 1i32 },
                Color { r: 800u64, g: 800u64, b: 800u64 },
            ),
        ),
        r.objects@[3] == SceneObject::Plane(
            room_wall(
                Vec3 { x: -2500i32, y: 0i32, z: 0i32 },
                Vec3 { x: 1i32, y: 0i32, z: 0i32 },
                Color { r: 900u64, g: 200u64, b: 200u64 },
            ),
        ),
        r.objects@[4] == SceneObject::Plane(
            room_wall(
                Vec3 { x: 2500i32, y: 0i32, z: 0i32 },
                Vec3 { x: -1i32, y: 0i32, z: 0i32 },
                Color { r: 200u64, g: 900u64, b: 200u64 },
            ),
        ),
        r.objects@[5] == SceneObject::Plane(room_light()),
        r.objects@[6] is Mesh,
        mesh_of(r.objects@[6]).position == (Vec3 { x: 0i32, y: -2500i32, z: 0i32 }),
        mesh_of(r.objects@[6]).scale == 2i32,
        mesh_of(r.objects@[6]).faces@.len() == mesh.faces@.len(),
        forall|i: int|
            0 <= i < mesh.faces@.len() ==> #[trigger] mesh_of(r.objects@[6]).faces@[i].vertices@
                == mesh.faces@[i].vertices@ && mesh_of(r.objects@[6]).faces@[i].material
                == scene_mesh_material(),
{
    let mut scene = Scene::new();
    let gray = Color::new(800, 800, 800);

    // Floor
    scene.add_object(
        SceneObject::Plane(
            Plane::new(
                Vec3::new(0, -2500, 0),
                Vec3::new(0, 1, 0),
                5000,
                5000,
                Material::new(gray, 1000, 0, 0),
            ),
        ),
    );

    // Ceiling
    scene.add_object(
        SceneObject::Plane(
            Plane::new(
                Vec3::new(0, 2500, 0),
                Vec3::new(0, -1, 0),
                5000,
                5000,
                Material::new(gray, 1000, 0, 0),
            ),
        ),
    );

    // Back wall
    scene.add_object(
        SceneObject::Plane(
            Plane::new(
                Vec3::new(0, 0, -2500),
                Vec3::new(0, 0, 1),
                5000,
                5000,
                Material::new(gray, 1000, 0, 0),
            ),
        ),
    );

    // Left wall
    scene.add_object(
        SceneObject::Plane(
            Plane::new(
                Vec3::new(-2500, 0, 0),
                Vec3::new(1, 0, 0),
                5000,
                5000,
                Material::new(Color::new(900, 200, 200), 1000, 0, 0),
            ),
        ),
    );

    // Right wall
    scene.add_object(
        SceneObject::Plane(
            Plane::new(
                Vec3::new(2500, 0, 0),
                Vec3::new(-1, 0, 0),
                5000,
                5000,
                Material::new(Color::new(200, 900, 200), 1000, 0, 0),
            ),
        ),
    );

    // Ceiling light
    scene.add_object(
        SceneObject::Plane(
            Plane::new(
                Vec3::new(0, 2499, 0),
                Vec3::new(0, -1, 0),
                3000,
                3000,
                Material::new(Color::white(), 0, 0, 1000),
            ),
        ),
    );

    let mut mesh = mesh;
    mesh.set_material(Material::new(Color::new(900, 900, 900), 1000, 0, 0));
    mesh.position = Vec3::new(0, -2500, 0);
    mesh.scale = 2;
    scene.add_object(SceneObject::Mesh(mesh));

    scene
}

/// Maps a record the compute pass wrote back into the renderer's hit
/// record.
pub fn convert_hit_info(gpu_hit: &GpuHitInfo, ray: &Ray) -> (h: HitInfo)
    ensures
        h.has_hit == (gpu_hit.has_hit != 0),
        h.t == gpu_hit.t,
        h.pos == gpu_hit.pos,
        h.sent_ray == *ray,
        h.normal == gpu_hit.normal,
        h.material == (Material {
            albedo: gpu_hit.albedo,
            roughness: gpu_hit.roughness,
            metallic: gpu_hit.metallic,
            emission: gpu_hit.emission,
        }),
{
    HitInfo {
        has_hit: gpu_hit.has_hit != 0,
        t: gpu_hit.t,
        pos: gpu_hit.pos,
        sent_ray: *ray,
        normal: gpu_hit.normal,
        material: Material {
            albedo: gpu_hit.albedo,
            roughness: gpu_hit.roughness,
            metallic: gpu_hit.metallic,
            emission: gpu_hit.emission,
        },
    }
}

} // verus!
