//! The fixed-layout records the data-parallel consumer reads.
//!
//! Coordinates are the library's integer units and color scalars its
//! fixed-point values; the uploading layer widens them to the device's
//! number format and adds alignment padding when it builds the byte
//! buffers.

use vstd::prelude::*;
use crate::color::Color;
use crate::vec3::Vec3;

verus! {

#[derive(Clone, Copy, Debug, PartialEq, Eq, Structural)]
pub struct GpuSphere {
    pub center: Vec3,
    pub radius: i32,
    pub albedo: Color,
    pub emission: u64,
    pub metallic: u64,
    pub roughness: u64,
}

#[derive(Clone, Copy, Debug, PartialEq, Eq, Structural)]
pub struct GpuTriangle {
    pub v0: Vec3,
    pub v1: Vec3,
    pub v2: Vec3,
    pub albedo: Color,
    pub emission: u64,
    pub metallic: u64,
    pub roughness: u64,
}

#[derive(Clone, Copy, Debug, PartialEq, Eq, Structural)]
pub struct GpuPlane {
    pub center: Vec3,
    pub normal: Vec3,
    pub width: i32,
    pub length: i32,
    pub albedo: Color,
    pub emission: u64,
    pub metallic: u64,
    pub roughness: u64,
}

#[derive(Clone, Copy, Debug, PartialEq, Eq, Structural)]
pub struct GpuRay {
    pub origin: Vec3,
    pub direction: Vec3,
}

#[derive(Clone, Copy, Debug, PartialEq, Eq, Structural)]
pub struct GpuHitInfo {
    pub has_hit: u32,
    pub t: i64,
    pub pos: Vec3,
    pub normal: Vec3,
    pub albedo: Color,
    pub emission: u64,
    pub metallic: u64,
    pub roughness: u64,
}

#[derive(Clone, Copy, Debug, PartialEq, Eq, Structural)]
pub struct GpuColor {
    pub r: u64,
    pub g: u64,
    pub b: u64,
}

} // verus!
