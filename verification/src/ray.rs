//! Rays: an origin and a direction in integer coordinates.

use vstd::prelude::*;
use crate::vec3::Vec3;

verus! {

#[derive(Clone, Copy, Debug, PartialEq, Eq, Structural)]
pub struct Ray {
    pub origin: Vec3,
    pub direction: Vec3,
}

impl Ray {
    pub fn new(origin: Vec3, direction: Vec3) -> (r: Ray)
        ensures
            r == (Ray { origin, direction }),
    {
        Ray { origin, direction }
    }

    pub open spec fn spec_origin(self) -> Vec3 {
        self.origin
    }

    pub open spec fn spec_direction(self) -> Vec3 {
        self.direction
    }

    pub fn origin(&self) -> (v: Vec3)
        ensures
            v == self.spec_origin(),
    {
        self.origin
    }

    pub fn direction(&self) -> (v: Vec3)
        ensures
            v == self.spec_direction(),
    {
        self.direction
    }

    /// The squared length of the direction.
    pub fn dot(&self) -> (d: i128)
        ensures
            d == self.direction.x * self.direction.x + self.direction.y * self.direction.y
                + self.direction.z * self.direction.z,
    {
        let x = self.direction.x as i128;
        let y = self.direction.y as i128;
        let z = self.direction.z as i128;
        proof {
            assert(0 <= x * x <= 0x4000_0000_0000_0000int) by (nonlinear_arith)
                requires
                    i32::MIN <= x <= i32::MAX,
            ;
            assert(0 <= y * y <= 0x4000_0000_0000_0000int) by (nonlinear_arith)
                requires
                    i32::MIN <= y <= i32::MAX,
            ;
            assert(0 <= z * z <= 0x4000_0000_0000_0000int) by (nonlinear_arith)
                requires
                    i32::MIN <= z <= i32::MAX,
            ;
        }
        x * x + y * y + z * z
    }
}

} // verus!
