//! Axis-aligned bounding boxes and the split-axis heuristic.

use vstd::prelude::*;
use crate::objects::Triangle;
use crate::ray::Ray;
use crate::vec3::Vec3;

verus! {

/// A coordinate axis; the box's dominant axis picks the split direction
/// during hierarchy construction.
#[derive(Clone, Copy, Debug, PartialEq, Eq, Structural)]
pub enum Axis {
    X,
    Y,
    Z,
}

/// An axis-aligned box given by its two extreme corners. The raw
/// constructor does not validate `min.le(max)`; boxes built by
/// [`AABB::from_triangles`] always satisfy it.
#[derive(Clone, Copy, Debug, PartialEq, Eq, Structural)]
pub struct AABB {
    pub min: Vec3,
    pub max: Vec3,
}

impl AABB {
    pub fn new(min: Vec3, max: Vec3) -> (b: AABB)
        ensures
            b == (AABB { min, max }),
    {
        AABB { min, max }
    }

    /// `min` is below `max` on every axis.
    pub open spec fn is_valid(self) -> bool {
        self.min.le(self.max)
    }

    /// The point lies inside the box or on its boundary.
    pub open spec fn contains_point(self, p: Vec3) -> bool {
        self.min.le(p) && p.le(self.max)
    }

    /// Every corner of `inner` lies within `self`.
    pub open spec fn contains_box(self, inner: AABB) -> bool {
        self.min.le(inner.min) && inner.max.le(self.max)
    }

    /// All three vertices of the triangle lie within the box.
    pub open spec fn contains_triangle(self, t: Triangle) -> bool {
        self.contains_point(t.v0) && self.contains_point(t.v1) && self.contains_point(t.v2)
    }

    /// The smallest box around both arguments.
    pub open spec fn enclose(self, other: AABB) -> AABB {
        AABB { min: self.min.spec_min(other.min), max: self.max.spec_max(other.max) }
    }

    /// The axis along which the box is longest; `X` wins ties against `Y`,
    /// and `Y` wins ties against `Z`.
    pub open spec fn biggest_axis_spec(self) -> Axis {
        let dx = self.max.x - self.min.x;
        let dy = self.max.y - self.min.y;
        let dz = self.max.z - self.min.z;
        if dx > dy && dx > dz {
            Axis::X
        } else if dy > dz {
            Axis::Y
        } else {
            Axis::Z
        }
    }

    pub fn get_biggest_axis(&self) -> (a: Axis)
        ensures
            a == self.biggest_axis_spec(),
    {
        let x_length = self.max.x as i64 - self.min.x as i64;
        let y_length = self.max.y as i64 - self.min.y as i64;
        let z_length = self.max.z as i64 - self.min.z as i64;
        if x_length > y_length && x_length > z_length {
            Axis::X
        } else if y_length > z_length {
            Axis::Y
        } else {
            Axis::Z
        }
    }

    /// The twelve edges of the box as corner pairs, for wireframe drawing.
    pub fn edges(&self) -> (es: [(Vec3, Vec3); 12])
        ensures
            es@ == self.edges_spec(),
    {
        let min = self.min;
        let max = self.max;

        let v000 = Vec3::new(min.x, min.y, min.z);
        let v001 = Vec3::new(min.x, min.y, max.z);
        let v010 = Vec3::new(min.x, max.y, min.z);
        let v011 = Vec3::new(min.x, max.y, max.z);
        let v100 = Vec3::new(max.x, min.y, min.z);
        let v101 = Vec3::new(max.x, min.y, max.z);
        let v110 = Vec3::new(max.x, max.y, min.z);
        let v111 = Vec3::new(max.x, max.y, max.z);

        let es = [
            (v000, v001),
            (v001, v011),
            (v011, v010),
            (v010, v000),
            (v100, v101),
            (v101, v111),
            (v111, v110),
            (v110, v100),
            (v000, v100),
            (v001, v101),
            (v010, v110),
            (v011, v111),
        ];
        proof {
            assert(es@ =~= self.edges_spec());
        }
        es
    }

    /// The edge list `edges` returns: each pair of corners that differ on
    /// exactly one axis, in the fixed order the renderer draws them.
    pub open spec fn edges_spec(self) -> Seq<(Vec3, Vec3)> {
        let min = self.min;
        let max = self.max;
        let v000 = Vec3 { x: min.x, y: min.y, z: min.z };
        let v001 = Vec3 { x: min.x, y: min.y, z: max.z };
        let v010 = Vec3 { x: min.x, y: max.y, z: min.z };
        let v011 = Vec3 { x: min.x, y: max.y, z: max.z };
        let v100 = Vec3 { x: max.x, y: min.y, z: min.z };
        let v101 = Vec3 { x: max.x, y: min.y, z: max.z };
        let v110 = Vec3 { x: max.x, y: max.y, z: min.z };
        let v111 = Vec3 { x: max.x, y: max.y, z: max.z };
        seq![
            (v000, v001),
            (v001, v011),
            (v011, v010),
            (v010, v000),
            (v100, v101),
            (v101, v111),
            (v111, v110),
            (v110, v100),
            (v000, v100),
            (v001, v101),
            (v010, v110),
            (v011, v111),
        ]
    }

    /// The bounding box of a triangle alone.
    pub open spec fn of_triangle(t: Triangle) -> AABB {
        AABB {
            min: t.v0.spec_min(t.v1).spec_min(t.v2),
            max: t.v0.spec_max(t.v1).spec_max(t.v2),
        }
    }

    /// The bounding box of a triangle sequence: the component-wise extreme
    /// over every vertex. Empty input gives the degenerate box at the
    /// origin.
    pub open spec fn of_seq(s: Seq<Triangle>) -> AABB
        decreases s.len(),
    {
        if s.len() == 0 {
            AABB { min: Vec3 { x: 0i32, y: 0i32, z: 0i32 }, max: Vec3 { x: 0i32, y: 0i32, z: 0i32 } }
        } else if s.len() == 1 {
            AABB::of_triangle(s[0])
        } else {
            AABB::of_seq(s.drop_last()).enclose(AABB::of_triangle(s.last()))
        }
    }

    /// Computes the bounding box of a triangle list.
    pub fn from_triangles(tris: &Vec<Triangle>) -> (b: AABB)
        ensures
            b == AABB::of_seq(tris@),
            b.is_valid(),
    {
        proof {
            lemma_of_seq_valid(tris@);
        }
        if tris.len() == 0 {
            return AABB { min: Vec3::zero(), max: Vec3::zero() };
        }
        let t0 = tris[0];
        let mut b = AABB {
            min: t0.v0.min(t0.v1).min(t0.v2),
            max: t0.v0.max(t0.v1).max(t0.v2),
        };
        let mut k: usize = 1;
        proof {
            assert(tris@.take(1).len() == 1);
            assert(tris@.take(1)[0] == tris@[0]);
        }
        while k < tris.len()
            invariant
                1 <= k <= tris@.len(),
                b == AABB::of_seq(tris@.take(k as int)),
            decreases tris@.len() - k,
        {
            let t = tris[k];
            proof {
                assert(tris@.take(k + 1).drop_last() =~= tris@.take(k as int));
                assert(tris@.take(k + 1).last() == tris@[k as int]);
                assert(tris@.take(k + 1).len() == k + 1 >= 2);
            }
            b = AABB {
                min: b.min.min(t.v0.min(t.v1).min(t.v2)),
                max: b.max.max(t.v0.max(t.v1).max(t.v2)),
            };
            k = k + 1;
        }
        proof {
            assert(tris@.take(tris@.len() as int) =~= tris@);
        }
        b
    }
}

/// On one axis with a moving ray (`d != 0`), the ray parameter at which
/// the slab is entered, as the numerator of a rational over [`slab_den`].
pub open spec fn slab_entry_num(o: int, d: int, lo: int, hi: int) -> int {
    if d > 0 {
        lo - o
    } else {
        hi - o
    }
}

/// The slab-exit counterpart of [`slab_entry_num`].
pub open spec fn slab_exit_num(o: int, d: int, lo: int, hi: int) -> int {
    if d > 0 {
        hi - o
    } else {
        lo - o
    }
}

/// The (positive) common denominator of a constrained axis's entry and
/// exit parameters.
pub open spec fn slab_den(d: int) -> int {
    if d >= 0 {
        d
    } else {
        -d
    }
}

/// Entry of axis `a` at or before exit of axis `b`, both axes
/// constrained: the rational comparison `entry_a / den_a <= exit_b /
/// den_b` cleared of denominators.
pub open spec fn slab_pair_le(
    oa: int,
    da: int,
    loa: int,
    hia: int,
    ob: int,
    db: int,
    lob: int,
    hib: int,
) -> bool {
    slab_entry_num(oa, da, loa, hia) * slab_den(db) <= slab_exit_num(ob, db, lob, hib) * slab_den(
        da,
    )
}

impl AABB {
    /// The slab test, exactly: writing `[t_in(a), t_out(a)]` for the ray
    /// parameters inside axis `a`'s slab, the ray hits the box iff
    /// `min(t_out) >= max(max(t_in), 0)`. Cleared of denominators that
    /// reads: every axis with a zero direction component already contains
    /// the origin; every entry lies at or before every exit; and every
    /// exit is at or past zero.
    pub open spec fn hit_spec(self, r: Ray) -> bool {
        let o = r.origin;
        let d = r.direction;
        let lo = self.min;
        let hi = self.max;
        &&& (d.x != 0 || (lo.x <= o.x <= hi.x))
        &&& (d.y != 0 || (lo.y <= o.y <= hi.y))
        &&& (d.z != 0 || (lo.z <= o.z <= hi.z))
        &&& ((d.x != 0 && d.y != 0) ==> slab_pair_le(
            o.x as int,
            d.x as int,
            lo.x as int,
            hi.x as int,
            o.y as int,
            d.y as int,
            lo.y as int,
            hi.y as int,
        ))
        &&& ((d.y != 0 && d.x != 0) ==> slab_pair_le(
            o.y as int,
            d.y as int,
            lo.y as int,
            hi.y as int,
            o.x as int,
            d.x as int,
            lo.x as int,
            hi.x as int,
        ))
        &&& ((d.x != 0 && d.z != 0) ==> slab_pair_le(
            o.x as int,
            d.x as int,
            lo.x as int,
            hi.x as int,
            o.z as int,
            d.z as int,
            lo.z as int,
            hi.z as int,
        ))
        &&& ((d.z != 0 && d.x != 0) ==> slab_pair_le(
            o.z as int,
            d.z as int,
            lo.z as int,
            hi.z as int,
            o.x as int,
            d.x as int,
            lo.x as int,
            hi.x as int,
        ))
        &&& ((d.y != 0 && d.z != 0) ==> slab_pair_le(
            o.y as int,
            d.y as int,
            lo.y as int,
            hi.y as int,
            o.z as int,
            d.z as int,
            lo.z as int,
            hi.z as int,
        ))
        &&& ((d.z != 0 && d.y != 0) ==> slab_pair_le(
            o.z as int,
            d.z as int,
            lo.z as int,
            hi.z as int,
            o.y as int,
            d.y as int,
            lo.y as int,
            hi.y as int,
        ))
        &&& (d.x != 0 ==> slab_pair_le(
            o.x as int,
            d.x as int,
            lo.x as int,
            hi.x as int,
            o.x as int,
            d.x as int,
            lo.x as int,
            hi.x as int,
        ))
        &&& (d.y != 0 ==> slab_pair_le(
            o.y as int,
            d.y as int,
            lo.y as int,
            hi.y as int,
            o.y as int,
            d.y as int,
            lo.y as int,
            hi.y as int,
        ))
        &&& (d.z != 0 ==> slab_pair_le(
            o.z as int,
            d.z as int,
            lo.z as int,
            hi.z as int,
            o.z as int,
            d.z as int,
            lo.z as int,
            hi.z as int,
        ))
        &&& (d.x != 0 ==> slab_exit_num(o.x as int, d.x as int, lo.x as int, hi.x as int) >= 0)
        &&& (d.y != 0 ==> slab_exit_num(o.y as int, d.y as int, lo.y as int, hi.y as int) >= 0)
        &&& (d.z != 0 ==> slab_exit_num(o.z as int, d.z as int, lo.z as int, hi.z as int) >= 0)
    }

    /// The boolean ray/box slab test over exact integer arithmetic.
    pub fn hit(&self, r: &Ray) -> (b: bool)
        ensures
            b == self.hit_spec(*r),
    {
        let o = r.origin();
        let d = r.direction();
        let lo = self.min;
        let hi = self.max;

        if d.x == 0 && !(lo.x <= o.x && o.x <= hi.x) {
            return false;
        }
        if d.y == 0 && !(lo.y <= o.y && o.y <= hi.y) {
            return false;
        }
        if d.z == 0 && !(lo.z <= o.z && o.z <= hi.z) {
            return false;
        }

        let x = slab_axis(o.x, d.x, lo.x, hi.x);
        let y = slab_axis(o.y, d.y, lo.y, hi.y);
        let z = slab_axis(o.z, d.z, lo.z, hi.z);

        if d.x != 0 {
            if x.1 < 0 {
                return false;
            }
            if !rational_le(x.0, x.2, x.1, x.2) {
                return false;
            }
            if d.y != 0 && (!rational_le(x.0, x.2, y.1, y.2) || !rational_le(y.0, y.2, x.1, x.2)) {
                return false;
            }
            if d.z != 0 && (!rational_le(x.0, x.2, z.1, z.2) || !rational_le(z.0, z.2, x.1, x.2)) {
                return false;
            }
        }
        if d.y != 0 {
            if y.1 < 0 {
                return false;
            }
            if !rational_le(y.0, y.2, y.1, y.2) {
                return false;
            }
            if d.z != 0 && (!rational_le(y.0, y.2, z.1, z.2) || !rational_le(z.0, z.2, y.1, y.2)) {
                return false;
            }
        }
        if d.z != 0 {
            if z.1 < 0 {
                return false;
            }
            if !rational_le(z.0, z.2, z.1, z.2) {
                return false;
            }
        }
        true
    }
}

/// One axis's slab parameters: entry numerator, exit numerator and the
/// positive denominator. For `d == 0` the triple is unused filler.
fn slab_axis(o: i32, d: i32, lo: i32, hi: i32) -> (r: (i64, i64, i64))
    ensures
        d != 0 ==> r.0 == slab_entry_num(o as int, d as int, lo as int, hi as int),
        d != 0 ==> r.1 == slab_exit_num(o as int, d as int, lo as int, hi as int),
        d != 0 ==> r.2 == slab_den(d as int) && r.2 > 0,
        -0x1_0000_0000 <= r.0 <= 0x1_0000_0000,
        -0x1_0000_0000 <= r.1 <= 0x1_0000_0000,
        r.2 <= 0x1_0000_0000,
{
    let entry = if d > 0 {
        (lo as i64) - (o as i64)
    } else {
        (hi as i64) - (o as i64)
    };
    let exit = if d > 0 {
        (hi as i64) - (o as i64)
    } else {
        (lo as i64) - (o as i64)
    };
    let den = if d >= 0 {
        d as i64
    } else {
        -(d as i64)
    };
    (entry, exit, den)
}

/// `a/ad <= b/bd` for positive denominators, compared without division.
fn rational_le(a: i64, ad: i64, b: i64, bd: i64) -> (r: bool)
    requires
        0 < ad <= 0x1_0000_0000,
        0 < bd <= 0x1_0000_0000,
        -0x1_0000_0000 <= a <= 0x1_0000_0000,
        -0x1_0000_0000 <= b <= 0x1_0000_0000,
    ensures
        r == (a * bd <= b * ad),
{
    proof {
        assert(-0x1_0000_0000_0000_0000int <= a * bd <= 0x1_0000_0000_0000_0000int)
            by (nonlinear_arith)
            requires
                -0x1_0000_0000 <= a <= 0x1_0000_0000,
                0 < bd <= 0x1_0000_0000,
        ;
        assert(-0x1_0000_0000_0000_0000int <= b * ad <= 0x1_0000_0000_0000_0000int)
            by (nonlinear_arith)
            requires
                -0x1_0000_0000 <= b <= 0x1_0000_0000,
                0 < ad <= 0x1_0000_0000,
        ;
    }
    (a as i128) * (bd as i128) <= (b as i128) * (ad as i128)
}

/// The box of a sequence contains every triangle of the sequence.
pub proof fn lemma_of_seq_contains(s: Seq<Triangle>)
    ensures
        forall|i: int| 0 <= i < s.len() ==> #[trigger] AABB::of_seq(s).contains_triangle(s[i]),
    decreases s.len(),
{
    if s.len() <= 1 {
    } else {
        lemma_of_seq_contains(s.drop_last());
        let b = AABB::of_seq(s);
        let prev = AABB::of_seq(s.drop_last());
        assert forall|i: int| 0 <= i < s.len() implies #[trigger] b.contains_triangle(s[i]) by {
            if i < s.len() - 1 {
                assert(prev.contains_triangle(s.drop_last()[i]));
                assert(s.drop_last()[i] == s[i]);
            } else {
                assert(s[i] == s.last());
            }
        }
    }
}

/// The box of a sequence is valid whenever the sequence's box is built
/// from at least no triangles at all: extremes never cross.
pub proof fn lemma_of_seq_valid(s: Seq<Triangle>)
    ensures
        AABB::of_seq(s).is_valid(),
    decreases s.len(),
{
    if s.len() <= 1 {
    } else {
        lemma_of_seq_valid(s.drop_last());
    }
}

/// A box that contains every triangle of a nonempty sequence contains the
/// sequence's bounding box.
pub proof fn lemma_of_seq_bound(s: Seq<Triangle>, outer: AABB)
    requires
        s.len() > 0,
        forall|i: int| 0 <= i < s.len() ==> #[trigger] outer.contains_triangle(s[i]),
    ensures
        outer.contains_box(AABB::of_seq(s)),
    decreases s.len(),
{
    if s.len() == 1 {
        assert(outer.contains_triangle(s[0]));
    } else {
        lemma_of_seq_bound(s.drop_last(), outer);
        assert(outer.contains_triangle(s.last()));
    }
}

/// Every triangle of `inner` occurs in `outer`; then the box of `outer`
/// contains the box of `inner`.
pub proof fn lemma_of_seq_subset(inner: Seq<Triangle>, outer: Seq<Triangle>)
    requires
        inner.len() > 0,
        forall|i: int| 0 <= i < inner.len() ==> outer.contains(#[trigger] inner[i]),
    ensures
        AABB::of_seq(outer).contains_box(AABB::of_seq(inner)),
{
    let big = AABB::of_seq(outer);
    lemma_of_seq_contains(outer);
    assert forall|i: int| 0 <= i < inner.len() implies #[trigger] big.contains_triangle(
        inner[i],
    ) by {
        let j = choose|j: int| 0 <= j < outer.len() && outer[j] == inner[i];
        assert(big.contains_triangle(outer[j]));
    }
    lemma_of_seq_bound(inner, big);
}

} // verus!
