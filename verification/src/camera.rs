//! The camera: a viewport size and the eye ray it shoots.
//!
//! Projection into and out of screen space is real-valued trigonometry
//! and is done by the layer that owns the display; the library carries
//! the camera state the renderer and movement logic read and write.

use vstd::prelude::*;
use crate::ray::Ray;

verus! {

#[derive(Clone, Copy, Debug, PartialEq, Eq, Structural)]
pub struct Camera {
    pub width: u32,
    pub height: u32,
    pub ray: Ray,
}

impl Camera {
    pub fn new(width: u32, height: u32, ray: Ray) -> (c: Camera)
        ensures
            c == (Camera { width, height, ray }),
    {
        Camera { width, height, ray }
    }

    pub open spec fn spec_width(self) -> u32 {
        self.width
    }

    pub open spec fn spec_height(self) -> u32 {
        self.height
    }

    pub open spec fn spec_ray(self) -> Ray {
        self.ray
    }

    pub fn resize(&mut self, width: u32, height: u32)
        ensures
            *final(self) == (Camera { width, height, ray: old(self).ray }),
    {
        self.width = width;
        self.height = height;
    }

    pub fn width(&self) -> (w: u32)
        ensures
            w == self.spec_width(),
    {
        self.width
    }

    pub fn height(&self) -> (h: u32)
        ensures
            h == self.spec_height(),
    {
        self.height
    }

    pub fn ray(&self) -> (r: Ray)
        ensures
            r == self.spec_ray(),
    {
        self.ray
    }

    pub fn set_ray(&mut self, ray: Ray)
        ensures
            *final(self) == (Camera { width: old(self).width, height: old(self).height, ray }),
    {
        self.ray = ray;
    }
}

} // verus!
