//! Meshes: faces of polygon vertices that triangulate lazily into world
//! triangles.
//!
//! A mesh carries a uniform integer scale and a translation; every call of
//! [`Mesh::get_triangles`] fan-triangulates each face and applies
//! scale-then-translate to every vertex, so later transform changes affect
//! future triangulations. Faces with fewer than three vertices emit no
//! triangles. Rotation is real-valued work and is applied to the vertex
//! data by the importing layer before it reaches the mesh.

use vstd::prelude::*;
use crate::color::Color;
use crate::material::Material;
use crate::objects::Triangle;
use crate::vec3::Vec3;

verus! {

/// A polygon corner: a position and a surface normal.
#[derive(Clone, Copy, Debug, PartialEq, Eq, Structural)]
pub struct Vertex {
    pub position: Vec3,
    pub normal: Vec3,
}

impl Vertex {
    pub fn new(position: Vec3, normal: Vec3) -> (v: Vertex)
        ensures
            v == (Vertex { position, normal }),
    {
        Vertex { position, normal }
    }
}

/// A polygon of at least zero vertices sharing one material.
#[derive(Debug)]
pub struct Face {
    pub vertices: Vec<Vertex>,
    pub material: Material,
}

/// The fan triangulation of one face: vertex 0 joined with every adjacent
/// vertex pair. A face under three vertices yields nothing.
pub open spec fn face_tris(f: Face) -> Seq<Triangle> {
    if f.vertices@.len() < 3 {
        Seq::empty()
    } else {
        Seq::new(
            (f.vertices@.len() - 2) as nat,
            |i: int|
                Triangle {
                    v0: f.vertices@[0].position,
                    v1: f.vertices@[i + 1].position,
                    v2: f.vertices@[i + 2].position,
                    material: f.material,
                    id: 0u32,
                },
        )
    }
}

impl Face {
    /// The material a fresh face wears until one is assigned.
    pub open spec fn new_material() -> Material {
        Material { albedo: Color::white_spec(), roughness: 0u64, metallic: 0u64, emission: 0u64 }
    }

    pub fn new() -> (f: Face)
        ensures
            f.vertices@ =~= Seq::<Vertex>::empty(),
            f.material == Face::new_material(),
    {
        Face { vertices: Vec::new(), material: Material::new(Color::white(), 0, 0, 0) }
    }

    pub fn append_vertex(&mut self, vertex: Vertex)
        ensures
            final(self).vertices@ == old(self).vertices@.push(vertex),
            final(self).material == old(self).material,
    {
        self.vertices.push(vertex);
    }

    pub fn set_material(&mut self, material: Material)
        ensures
            final(self).vertices@ == old(self).vertices@,
            final(self).material == material,
    {
        self.material = material;
    }

    /// Fan-triangulates the face.
    pub fn to_tris(&self) -> (tris: Vec<Triangle>)
        ensures
            tris@ == face_tris(*self),
            self.vertices@.len() >= 3 ==> tris@.len() == self.vertices@.len() - 2,
            self.vertices@.len() < 3 ==> tris@.len() == 0,
    {
        let mut tris: Vec<Triangle> = Vec::new();
        if self.vertices.len() < 3 {
            proof {
                assert(tris@ =~= face_tris(*self));
            }
            return tris;
        }
        let mut i: usize = 1;
        while i < self.vertices.len() - 1
            invariant
                1 <= i <= self.vertices@.len() - 1,
                self.vertices@.len() >= 3,
                tris@.len() == i - 1,
                forall|j: int| 0 <= j < i - 1 ==> tris@[j] == face_tris(*self)[j],
            decreases self.vertices@.len() - 1 - i,
        {
            tris.push(
                Triangle::new(
                    self.vertices[0].position,
                    self.vertices[i].position,
                    self.vertices[i + 1].position,
                    self.material,
                ),
            );
            i = i + 1;
        }
        proof {
            assert(tris@ =~= face_tris(*self));
        }
        tris
    }
}

/// A mesh: faces plus a mutable transform (uniform integer scale, then
/// translation by `position`).
#[derive(Debug)]
pub struct Mesh {
    pub faces: Vec<Face>,
    pub position: Vec3,
    pub scale: i32,
}

/// One transformed coordinate as an unbounded integer.
pub open spec fn world_coord(c: int, scale: int, offset: int) -> int {
    c * scale + offset
}

/// A vertex position whose transformed coordinates stay representable.
pub open spec fn point_in_range(v: Vec3, scale: int, position: Vec3) -> bool {
    &&& i32::MIN <= world_coord(v.x as int, scale, position.x as int) <= i32::MAX
    &&& i32::MIN <= world_coord(v.y as int, scale, position.y as int) <= i32::MAX
    &&& i32::MIN <= world_coord(v.z as int, scale, position.z as int) <= i32::MAX
}

/// A transformed vertex position.
pub open spec fn transform_point(v: Vec3, scale: int, position: Vec3) -> Vec3 {
    Vec3 {
        x: world_coord(v.x as int, scale, position.x as int) as i32,
        y: world_coord(v.y as int, scale, position.y as int) as i32,
        z: world_coord(v.z as int, scale, position.z as int) as i32,
    }
}

/// A triangle with every vertex transformed; material and id unchanged.
pub open spec fn transform_tri(t: Triangle, scale: int, position: Vec3) -> Triangle {
    Triangle {
        v0: transform_point(t.v0, scale, position),
        v1: transform_point(t.v1, scale, position),
        v2: transform_point(t.v2, scale, position),
        material: t.material,
        id: t.id,
    }
}

/// All triangles of a face list, in face order, untransformed.
pub open spec fn faces_tris(faces: Seq<Face>) -> Seq<Triangle>
    decreases faces.len(),
{
    if faces.len() == 0 {
        Seq::empty()
    } else {
        faces_tris(faces.drop_last()) + face_tris(faces.last())
    }
}

/// Renumbers a triangle list with its own positions as ids.
pub open spec fn with_ids(s: Seq<Triangle>) -> Seq<Triangle> {
    Seq::new(
        s.len(),
        |i: int|
            Triangle {
                v0: s[i].v0,
                v1: s[i].v1,
                v2: s[i].v2,
                material: s[i].material,
                id: i as u32,
            },
    )
}

impl Mesh {
    /// Every vertex of every face stays representable under the mesh's
    /// transform: the machine-size bound `get_triangles` needs.
    pub open spec fn in_range(self) -> bool {
        forall|i: int, j: int|
            0 <= i < self.faces@.len() && 0 <= j < self.faces@[i].vertices@.len()
                ==> point_in_range(
                (#[trigger] self.faces@[i].vertices@[j]).position,
                self.scale as int,
                self.position,
            )
    }

    /// The triangles one `get_triangles` call yields: every face fanned,
    /// every vertex transformed, ids numbered in emission order.
    pub open spec fn tris_spec(self) -> Seq<Triangle> {
        with_ids(
            Seq::new(
                faces_tris(self.faces@).len(),
                |i: int| transform_tri(faces_tris(self.faces@)[i], self.scale as int, self.position),
            ),
        )
    }

    pub fn new() -> (m: Mesh)
        ensures
            m.faces@ =~= Seq::<Face>::empty(),
            m.position == (Vec3 { x: 0i32, y: 0i32, z: 0i32 }),
            m.scale == 1i32,
    {
        Mesh { faces: Vec::new(), position: Vec3::zero(), scale: 1 }
    }

    pub fn append_face(&mut self, face: Face)
        ensures
            final(self).faces@ == old(self).faces@.push(face),
            final(self).position == old(self).position,
            final(self).scale == old(self).scale,
    {
        self.faces.push(face);
    }

    /// Replaces the material of every face.
    pub fn set_material(&mut self, material: Material)
        ensures
            final(self).faces@.len() == old(self).faces@.len(),
            forall|i: int|
                0 <= i < old(self).faces@.len() ==> #[trigger] final(self).faces@[i].vertices@
                    == old(self).faces@[i].vertices@ && final(self).faces@[i].material == material,
            final(self).position == old(self).position,
            final(self).scale == old(self).scale,
    {
        let mut k: usize = 0;
        while k < self.faces.len()
            invariant
                0 <= k <= self.faces@.len(),
                self.faces@.len() == old(self).faces@.len(),
                forall|i: int|
                    k <= i < old(self).faces@.len() ==> #[trigger] self.faces@[i].vertices@ == old(
                        self,
                    ).faces@[i].vertices@ && self.faces@[i].material == old(
                        self,
                    ).faces@[i].material,
                forall|i: int|
                    0 <= i < k ==> #[trigger] self.faces@[i].vertices@ == old(
                        self,
                    ).faces@[i].vertices@ && self.faces@[i].material == material,
                self.position == old(self).position,
                self.scale == old(self).scale,
            decreases self.faces@.len() - k,
        {
            let ghost prev = self.faces@;
            let mut face = self.faces.remove(k);
            face.material = material;
            self.faces.insert(k, face);
            proof {
                assert(self.faces@.len() == prev.len());
                assert(self.faces@[k as int].vertices@ == prev[k as int].vertices@
                    && self.faces@[k as int].material == material);
                assert forall|i: int| 0 <= i < prev.len() && i != k implies #[trigger] self.faces@[i]
                    == prev[i] by {
                    if i < k {
                        assert(self.faces@[i] == prev.remove(k as int)[i]);
                    } else {
                        assert(self.faces@[i] == prev.remove(k as int)[i - 1]);
                        assert(prev.remove(k as int)[i - 1] == prev[i]);
                    }
                }
            }
            k = k + 1;
        }
    }

    /// Triangulates every face and transforms every vertex into world
    /// space; the `k`-th emitted triangle carries id `k`.
    pub fn get_triangles(&self) -> (tris: Vec<Triangle>)
        requires
            self.in_range(),
            faces_tris(self.faces@).len() <= u32::MAX,
        ensures
            tris@ == self.tris_spec(),
            tris@.len() == faces_tris(self.faces@).len(),
    {
        let mut out: Vec<Triangle> = Vec::new();
        let mut k: usize = 0;
        proof {
            assert(faces_tris(self.faces@.take(0)) =~= Seq::<Triangle>::empty());
            assert(out@ =~= prefix_spec(*self, faces_tris(self.faces@.take(0))));
        }
        while k < self.faces.len()
            invariant
                0 <= k <= self.faces@.len(),
                self.in_range(),
                faces_tris(self.faces@).len() <= u32::MAX,
                faces_tris(self.faces@.take(k as int)).len() <= faces_tris(self.faces@).len(),
                out@ == prefix_spec(*self, faces_tris(self.faces@.take(k as int))),
            decreases self.faces@.len() - k,
        {
            let face = &self.faces[k];
            let face_local = face.to_tris();
            let ghost done = faces_tris(self.faces@.take(k as int));
            proof {
                assert(self.faces@.take(k + 1).drop_last() =~= self.faces@.take(k as int));
                assert(self.faces@.take(k + 1).last() == self.faces@[k as int]);
                lemma_faces_tris_prefix_len(self.faces@, k + 1);
            }
            let mut j: usize = 0;
            while j < face_local.len()
                invariant
                    0 <= j <= face_local@.len(),
                    self.in_range(),
                    face_local@ == face_tris(self.faces@[k as int]),
                    0 <= k < self.faces@.len(),
                    done == faces_tris(self.faces@.take(k as int)),
                    done.len() + face_local@.len() <= u32::MAX,
                    out@ == prefix_spec(*self, done + face_local@.take(j as int)),
                decreases face_local@.len() - j,
            {
                let t = face_local[j];
                proof {
                    lemma_face_tri_vertices_in_range(*self, k as int, j as int);
                    assert(done + face_local@.take(j + 1) =~= (done + face_local@.take(
                        j as int,
                    )).push(face_local@[j as int]));
                }
                let w0 = transform_exec(t.v0, self.scale, self.position);
                let w1 = transform_exec(t.v1, self.scale, self.position);
                let w2 = transform_exec(t.v2, self.scale, self.position);
                let id = out.len() as u32;
                out.push(Triangle::new_with_id(w0, w1, w2, t.material, id));
                proof {
                    assert(out@ =~= prefix_spec(*self, done + face_local@.take(j + 1)));
                }
                j = j + 1;
            }
            proof {
                assert(done + face_local@.take(face_local@.len() as int) =~= faces_tris(
                    self.faces@.take(k + 1),
                ));
            }
            k = k + 1;
        }
        proof {
            assert(self.faces@.take(self.faces@.len() as int) =~= self.faces@);
            assert(out@ =~= self.tris_spec());
        }
        out
    }

    /// The bounding box of the mesh's world triangles.
    pub fn to_aabb(&self) -> (b: crate::aabb::AABB)
        requires
            self.in_range(),
            faces_tris(self.faces@).len() <= u32::MAX,
        ensures
            b == crate::aabb::AABB::of_seq(self.tris_spec()),
    {
        let tris = self.get_triangles();
        crate::aabb::AABB::from_triangles(&tris)
    }
}

/// The transformed, renumbered form of an untransformed triangle prefix:
/// what the output vector holds after emitting exactly those triangles.
pub open spec fn prefix_spec(m: Mesh, plain: Seq<Triangle>) -> Seq<Triangle> {
    with_ids(
        Seq::new(plain.len(), |i: int| transform_tri(plain[i], m.scale as int, m.position)),
    )
}

/// Triangle prefixes of a face-list prefix never outgrow the whole list's
/// triangles.
proof fn lemma_faces_tris_prefix_len(faces: Seq<Face>, k: int)
    requires
        0 <= k <= faces.len(),
    ensures
        faces_tris(faces.take(k)).len() <= faces_tris(faces).len(),
    decreases faces.len() - k,
{
    if k < faces.len() {
        lemma_faces_tris_prefix_len(faces, k + 1);
        assert(faces.take(k + 1).drop_last() =~= faces.take(k));
    } else {
        assert(faces.take(k) =~= faces);
    }
}

/// Every vertex of every fan triangle of face `k` is a vertex of that
/// face, so its transform stays in range for an in-range mesh.
proof fn lemma_face_tri_vertices_in_range(m: Mesh, k: int, j: int)
    requires
        m.in_range(),
        0 <= k < m.faces@.len(),
        0 <= j < face_tris(m.faces@[k]).len(),
    ensures
        point_in_range(face_tris(m.faces@[k])[j].v0, m.scale as int, m.position),
        point_in_range(face_tris(m.faces@[k])[j].v1, m.scale as int, m.position),
        point_in_range(face_tris(m.faces@[k])[j].v2, m.scale as int, m.position),
{
    let f = m.faces@[k];
    assert(face_tris(f)[j].v0 == f.vertices@[0].position);
    assert(face_tris(f)[j].v1 == f.vertices@[j + 1].position);
    assert(face_tris(f)[j].v2 == f.vertices@[j + 2].position);
}

/// Applies scale-then-translate to one point.
fn transform_exec(v: Vec3, scale: i32, position: Vec3) -> (w: Vec3)
    requires
        point_in_range(v, scale as int, position),
    ensures
        w == transform_point(v, scale as int, position),
{
    proof {
        assert(v.x * scale <= 0x4000_0000_0000_0000int && v.x * scale >= -0x4000_0000_0000_0000int)
            by (nonlinear_arith)
            requires
                i32::MIN <= v.x <= i32::MAX,
                i32::MIN <= scale <= i32::MAX,
        ;
        assert(v.y * scale <= 0x4000_0000_0000_0000int && v.y * scale >= -0x4000_0000_0000_0000int)
            by (nonlinear_arith)
            requires
                i32::MIN <= v.y <= i32::MAX,
                i32::MIN <= scale <= i32::MAX,
        ;
        assert(v.z * scale <= 0x4000_0000_0000_0000int && v.z * scale >= -0x4000_0000_0000_0000int)
            by (nonlinear_arith)
            requires
                i32::MIN <= v.z <= i32::MAX,
                i32::MIN <= scale <= i32::MAX,
        ;
    }
    let x = (v.x as i64) * (scale as i64) + (position.x as i64);
    let y = (v.y as i64) * (scale as i64) + (position.y as i64);
    let z = (v.z as i64) * (scale as i64) + (position.z as i64);
    Vec3 { x: x as i32, y: y as i32, z: z as i32 }
}

} // verus!
