//! A small path-tracing core: triangle meshes, a bounding-volume hierarchy,
//! a flat node layout for data-parallel traversal, a Monte Carlo bounce
//! state machine and a progressive accumulation buffer.
//!
//! All geometry is held in plain integer coordinates and all color and
//! material scalars in decimal fixed point (see [`color::FP_ONE`]), so that
//! every rule of the renderer can be stated and proved exactly. Floating
//! point camera math, sampling and presentation live outside the library
//! and hand plain values in.

pub mod aabb;
pub mod bvh;
pub mod camera;
pub mod canvas;
pub mod color;
pub mod flatten;
pub mod gpu_types;
pub mod importer;
pub mod material;
pub mod model;
pub mod movement;
pub mod objects;
pub mod profiler;
pub mod ray;
pub mod renderer;
pub mod scene;
pub mod trace;
pub mod vec3;

pub use vec3::Vec3;
