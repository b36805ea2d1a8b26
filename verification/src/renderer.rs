//! The renderer facade.
//!
//! Generating eye rays and sampling bounce directions is real-valued work
//! done by the layer around the library; what the renderer owns here is
//! the per-pixel bookkeeping that every render path shares: clearing the
//! display, accumulating samples (see [`crate::canvas::Canvas`]) and the
//! bounce decisions (see [`crate::trace`]).

use vstd::prelude::*;
use crate::camera::Camera;
use crate::canvas::Canvas;
use crate::color::Color;

verus! {

pub struct Renderer {}

impl Renderer {
    pub fn new() -> (r: Renderer)
        ensures
            r == (Renderer {  }),
    {
        Renderer {  }
    }

    /// Paints the camera's whole viewport black.
    pub fn clear(&self, camera: &Camera, canvas: &mut Canvas)
        requires
            old(canvas).wf(),
            camera.spec_width() == old(canvas).spec_width(),
            camera.spec_height() == old(canvas).spec_height(),
        ensures
            final(canvas).wf(),
            final(canvas).pixel_buffer@.len() == old(canvas).pixel_buffer@.len(),
            forall|i: int|
                0 <= i < final(canvas).pixel_buffer@.len() ==> final(canvas).pixel_buffer@[i]
                    == Color::quantize_pack_black(),
            final(canvas).accum_buffer@ == old(canvas).accum_buffer@,
            final(canvas).sample_count == old(canvas).sample_count,
            final(canvas).spec_width() == old(canvas).spec_width(),
            final(canvas).spec_height() == old(canvas).spec_height(),
    {
        let black = Color::black().to_u32();
        let mut y: u32 = 0;
        while y < camera.height()
            invariant
                0 <= y <= camera.spec_height(),
                canvas.wf(),
                camera.spec_width() == canvas.spec_width(),
                camera.spec_height() == canvas.spec_height(),
                canvas.spec_width() == old(canvas).spec_width(),
                canvas.spec_height() == old(canvas).spec_height(),
                canvas.pixel_buffer@.len() == old(canvas).pixel_buffer@.len(),
                canvas.accum_buffer@ == old(canvas).accum_buffer@,
                canvas.sample_count == old(canvas).sample_count,
                black == Color::quantize_pack_black(),
                forall|i: int|
                    0 <= i < y * canvas.spec_width() ==> #[trigger] canvas.pixel_buffer@[i]
                        == Color::quantize_pack_black(),
            decreases camera.spec_height() - y,
        {
            let mut x: u32 = 0;
            while x < camera.width()
                invariant
                    0 <= x <= camera.spec_width(),
                    0 <= y < camera.spec_height(),
                    canvas.wf(),
                    camera.spec_width() == canvas.spec_width(),
                    camera.spec_height() == canvas.spec_height(),
                    canvas.spec_width() == old(canvas).spec_width(),
                    canvas.spec_height() == old(canvas).spec_height(),
                    canvas.pixel_buffer@.len() == old(canvas).pixel_buffer@.len(),
                    canvas.accum_buffer@ == old(canvas).accum_buffer@,
                    canvas.sample_count == old(canvas).sample_count,
                    black == Color::quantize_pack_black(),
                    forall|i: int|
                        0 <= i < y * canvas.spec_width() + x ==> #[trigger] canvas.pixel_buffer@[i]
                            == Color::quantize_pack_black(),
                decreases camera.spec_width() - x,
            {
                proof {
                    assert(y * canvas.spec_width() + x < canvas.spec_width()
                        * canvas.spec_height()) by (nonlinear_arith)
                        requires
                            x < canvas.spec_width(),
                            y < canvas.spec_height(),
                    ;
                }
                canvas.paint_pixel(x, y, black);
                x = x + 1;
            }
            proof {
                assert((y + 1) * canvas.spec_width() == y * canvas.spec_width()
                    + canvas.spec_width()) by (nonlinear_arith);
            }
            y = y + 1;
        }
        proof {
            assert(canvas.spec_height() * canvas.spec_width() == canvas.spec_width()
                * canvas.spec_height()) by (nonlinear_arith);
        }
    }
}

} // verus!
