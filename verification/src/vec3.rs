//! Three-component integer vectors: the coordinate type of every point,
//! direction and bounding box in the library.

use vstd::prelude::*;

verus! {

/// A point or direction in space. Components are plain integer coordinate
/// units; callers pick the unit (the bundled scenes use thousandths of a
/// world unit).
#[derive(Clone, Copy, Debug, PartialEq, Eq, Structural)]
pub struct Vec3 {
    pub x: i32,
    pub y: i32,
    pub z: i32,
}

impl Vec3 {
    pub fn new(x: i32, y: i32, z: i32) -> (v: Vec3)
        ensures
            v == (Vec3 { x, y, z }),
    {
        Vec3 { x, y, z }
    }

    /// The origin.
    pub fn zero() -> (v: Vec3)
        ensures
            v == (Vec3 { x: 0i32, y: 0i32, z: 0i32 }),
    {
        Vec3 { x: 0, y: 0, z: 0 }
    }

    /// Component-wise minimum.
    pub fn min(self, other: Vec3) -> (v: Vec3)
        ensures
            v == self.spec_min(other),
    {
        Vec3 {
            x: if self.x <= other.x { self.x } else { other.x },
            y: if self.y <= other.y { self.y } else { other.y },
            z: if self.z <= other.z { self.z } else { other.z },
        }
    }

    /// Component-wise maximum.
    pub fn max(self, other: Vec3) -> (v: Vec3)
        ensures
            v == self.spec_max(other),
    {
        Vec3 {
            x: if self.x >= other.x { self.x } else { other.x },
            y: if self.y >= other.y { self.y } else { other.y },
            z: if self.z >= other.z { self.z } else { other.z },
        }
    }

    pub open spec fn spec_min(self, other: Vec3) -> Vec3 {
        Vec3 {
            x: if self.x <= other.x { self.x } else { other.x },
            y: if self.y <= other.y { self.y } else { other.y },
            z: if self.z <= other.z { self.z } else { other.z },
        }
    }

    pub open spec fn spec_max(self, other: Vec3) -> Vec3 {
        Vec3 {
            x: if self.x >= other.x { self.x } else { other.x },
            y: if self.y >= other.y { self.y } else { other.y },
            z: if self.z >= other.z { self.z } else { other.z },
        }
    }

    /// True when every component of `self` is at most the matching
    /// component of `other`.
    pub open spec fn le(self, other: Vec3) -> bool {
        self.x <= other.x && self.y <= other.y && self.z <= other.z
    }
}

} // verus!
