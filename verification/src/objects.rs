//! Scene primitives and the record an intersection test hands back.

use vstd::prelude::*;
use crate::material::Material;
use crate::ray::Ray;
use crate::vec3::Vec3;

verus! {

/// The distance value that stands for "no hit": the integer stand-in for
/// an infinite ray parameter.
pub const T_NONE: i64 = i64::MAX;

/// What one intersection test reports. `has_hit == false` together with
/// `t == T_NONE` is the canonical miss.
#[derive(Clone, Copy, Debug, PartialEq, Eq, Structural)]
pub struct HitInfo {
    pub has_hit: bool,
    pub t: i64,
    pub pos: Vec3,
    pub sent_ray: Ray,
    pub normal: Vec3,
    pub material: Material,
}

/// The canonical miss record for a ray.
pub fn no_hit(ray: &Ray, material: Material) -> (h: HitInfo)
    ensures
        h == no_hit_spec(*ray, material),
{
    HitInfo {
        has_hit: false,
        t: T_NONE,
        pos: Vec3::zero(),
        sent_ray: *ray,
        normal: Vec3::zero(),
        material,
    }
}

pub open spec fn no_hit_spec(ray: Ray, material: Material) -> HitInfo {
    HitInfo {
        has_hit: false,
        t: T_NONE,
        pos: Vec3 { x: 0i32, y: 0i32, z: 0i32 },
        sent_ray: ray,
        normal: Vec3 { x: 0i32, y: 0i32, z: 0i32 },
        material,
    }
}

/// A triangle in world space. `id` is the triangle's stable position in the
/// world's flat triangle buffer; the flattening pass recovers triangle
/// identity from it instead of fingerprinting vertex bit patterns.
#[derive(Clone, Copy, Debug, PartialEq, Eq, Structural)]
pub struct Triangle {
    pub v0: Vec3,
    pub v1: Vec3,
    pub v2: Vec3,
    pub material: Material,
    pub id: u32,
}

impl Triangle {
    pub fn new(v0: Vec3, v1: Vec3, v2: Vec3, material: Material) -> (t: Triangle)
        ensures
            t == (Triangle { v0, v1, v2, material, id: 0u32 }),
    {
        Triangle { v0, v1, v2, material, id: 0 }
    }

    /// A triangle carrying its position in the world triangle buffer.
    pub fn new_with_id(v0: Vec3, v1: Vec3, v2: Vec3, material: Material, id: u32) -> (t:
        Triangle)
        ensures
            t == (Triangle { v0, v1, v2, material, id }),
    {
        Triangle { v0, v1, v2, material, id }
    }

    pub open spec fn spec_v0(self) -> Vec3 {
        self.v0
    }

    pub open spec fn spec_v1(self) -> Vec3 {
        self.v1
    }

    pub open spec fn spec_v2(self) -> Vec3 {
        self.v2
    }

    pub open spec fn spec_material(self) -> Material {
        self.material
    }

    pub fn v0(&self) -> (v: Vec3)
        ensures
            v == self.spec_v0(),
    {
        self.v0
    }

    pub fn v1(&self) -> (v: Vec3)
        ensures
            v == self.spec_v1(),
    {
        self.v1
    }

    pub fn v2(&self) -> (v: Vec3)
        ensures
            v == self.spec_v2(),
    {
        self.v2
    }

    pub fn get_vertices(&self) -> (vs: [Vec3; 3])
        ensures
            vs@ == seq![self.spec_v0(), self.spec_v1(), self.spec_v2()],
    {
        let vs = [self.v0, self.v1, self.v2];
        proof {
            assert(vs@ =~= seq![self.spec_v0(), self.spec_v1(), self.spec_v2()]);
        }
        vs
    }

    pub fn material(&self) -> (m: &Material)
        ensures
            *m == self.spec_material(),
    {
        &self.material
    }

    pub fn set_material(&mut self, material: Material)
        ensures
            *final(self) == (Triangle { material, ..*old(self) }),
    {
        self.material = material;
    }

    /// Three times the centroid: the component-wise sum of the vertices.
    /// Kept scaled by 3 so that it is exact in integers.
    pub fn centroid3(&self) -> (c: (i64, i64, i64))
        ensures
            c.0 == self.spec_v0().x + self.spec_v1().x + self.spec_v2().x,
            c.1 == self.spec_v0().y + self.spec_v1().y + self.spec_v2().y,
            c.2 == self.spec_v0().z + self.spec_v1().z + self.spec_v2().z,
    {
        (
            self.v0.x as i64 + self.v1.x as i64 + self.v2.x as i64,
            self.v0.y as i64 + self.v1.y as i64 + self.v2.y as i64,
            self.v0.z as i64 + self.v1.z as i64 + self.v2.z as i64,
        )
    }
}

/// A sphere: center, radius and material. Its intersection test needs a
/// square root over real distances and is done by the renderer's outer
/// layer; the library carries the data.
#[derive(Clone, Copy, Debug, PartialEq, Eq, Structural)]
pub struct Sphere {
    pub pos: Vec3,
    pub radius: i32,
    pub material: Material,
}

impl Sphere {
    pub fn new(pos: Vec3, radius: i32, material: Material) -> (s: Sphere)
        ensures
            s == (Sphere { pos, radius, material }),
    {
        Sphere { pos, radius, material }
    }

    pub open spec fn spec_center(self) -> Vec3 {
        self.pos
    }

    pub open spec fn spec_radius(self) -> i32 {
        self.radius
    }

    pub open spec fn spec_material(self) -> Material {
        self.material
    }

    pub fn center(&self) -> (v: Vec3)
        ensures
            v == self.spec_center(),
    {
        self.pos
    }

    pub fn radius(&self) -> (r: i32)
        ensures
            r == self.spec_radius(),
    {
        self.radius
    }

    pub fn material(&self) -> (m: &Material)
        ensures
            *m == self.spec_material(),
    {
        &self.material
    }
}

/// A bounded rectangle: center, normal, half extents along its two tangent
/// axes and a material. As with [`Sphere`], the test against a real ray is
/// floating-point work done outside; the library carries the data.
#[derive(Clone, Copy, Debug, PartialEq, Eq, Structural)]
pub struct Plane {
    pub center: Vec3,
    pub normal: Vec3,
    pub width: i32,
    pub length: i32,
    pub material: Material,
}

impl Plane {
    pub fn new(center: Vec3, normal: Vec3, width: i32, length: i32, material: Material) -> (p:
        Plane)
        ensures
            p == (Plane { center, normal, width, length, material }),
    {
        Plane { center, normal, width, length, material }
    }

    pub open spec fn spec_center(self) -> Vec3 {
        self.center
    }

    pub open spec fn spec_normal(self) -> Vec3 {
        self.normal
    }

    pub open spec fn spec_width(self) -> i32 {
        self.width
    }

    pub open spec fn spec_length(self) -> i32 {
        self.length
    }

    pub open spec fn spec_material(self) -> Material {
        self.material
    }

    pub fn center(&self) -> (v: Vec3)
        ensures
            v == self.spec_center(),
    {
        self.center
    }

    pub fn normal(&self) -> (v: Vec3)
        ensures
            v == self.spec_normal(),
    {
        self.normal
    }

    pub fn width(&self) -> (w: i32)
        ensures
            w == self.spec_width(),
    {
        self.width
    }

    pub fn length(&self) -> (l: i32)
        ensures
            l == self.spec_length(),
    {
        self.length
    }

    pub fn material(&self) -> (m: &Material)
        ensures
            *m == self.spec_material(),
    {
        &self.material
    }
}

/// The closest of a list of intersection reports: the record whose `t` is
/// smallest among real hits, the earliest on ties, matching a scan that
/// keeps the first strictly smaller distance.
pub open spec fn closest_hit_spec(hits: Seq<HitInfo>) -> Option<HitInfo>
    decreases hits.len(),
{
    if hits.len() == 0 {
        None
    } else {
        let rest = closest_hit_spec(hits.drop_last());
        let last = hits.last();
        match rest {
            None => if last.has_hit && last.t < T_NONE {
                Some(last)
            } else {
                None
            },
            Some(best) => if last.has_hit && last.t < best.t {
                Some(last)
            } else {
                Some(best)
            },
        }
    }
}

/// Scans a list of intersection reports and keeps the closest real hit.
pub fn closest_hit(hits: &Vec<HitInfo>) -> (best: Option<HitInfo>)
    ensures
        best == closest_hit_spec(hits@),
        best is Some ==> best->Some_0.has_hit,
        best is Some ==> forall|i: int|
            0 <= i < hits@.len() && hits@[i].has_hit ==> best->Some_0.t <= hits@[i].t,
        best is None ==> forall|i: int|
            0 <= i < hits@.len() ==> !(hits@[i].has_hit && hits@[i].t < T_NONE),
{
    let mut best: Option<HitInfo> = None;
    let mut k: usize = 0;
    while k < hits.len()
        invariant
            0 <= k <= hits@.len(),
            best == closest_hit_spec(hits@.take(k as int)),
            best is Some ==> best->Some_0.has_hit && best->Some_0.t < T_NONE,
            best is Some ==> forall|i: int|
                0 <= i < k && hits@[i].has_hit ==> best->Some_0.t <= hits@[i].t,
            best is None ==> forall|i: int|
                0 <= i < k ==> !(hits@[i].has_hit && hits@[i].t < T_NONE),
        decreases hits@.len() - k,
    {
        let info = hits[k];
        let take_it = info.has_hit && match best {
            None => info.t < T_NONE,
            Some(b) => info.t < b.t,
        };
        proof {
            assert(hits@.take(k + 1).drop_last() =~= hits@.take(k as int));
            assert(hits@.take(k + 1).last() == hits@[k as int]);
        }
        if take_it {
            best = Some(info);
        }
        k = k + 1;
    }
    proof {
        assert(hits@.take(hits@.len() as int) =~= hits@);
    }
    best
}

} // verus!
