//! The canvas core: the pixel buffer, the progressive accumulation buffer
//! and the sample counter.
//!
//! Presentation (windowing, textures) lives outside; the library owns the
//! buffers and the arithmetic on them: accumulating one sample per pixel,
//! averaging, resetting on camera movement, and packing bytes for upload.

use vstd::prelude::*;
use crate::color::{ch_add, Color};

verus! {

/// The renderer's output state. `accum_buffer` holds one running color
/// sum per pixel; `sample_count` counts the frames accumulated since the
/// last reset and is shared by all pixels.
pub struct Canvas {
    pub width: u32,
    pub height: u32,
    pub pixel_buffer: Vec<u32>,
    pub accum_buffer: Vec<Color>,
    pub sample_count: u32,
}

impl Canvas {
    /// Buffers sized to the viewport, and a pixel count a `u32` can hold.
    pub open spec fn wf(self) -> bool {
        &&& self.pixel_buffer@.len() == self.width * self.height
        &&& self.accum_buffer@.len() == self.width * self.height
        &&& self.width * self.height <= u32::MAX
    }

    pub open spec fn spec_width(self) -> u32 {
        self.width
    }

    pub open spec fn spec_height(self) -> u32 {
        self.height
    }

    /// The buffer index of a pixel.
    pub open spec fn index_of(self, x: u32, y: u32) -> int {
        y * self.width + x
    }

    pub fn new(width: u32, height: u32) -> (c: Canvas)
        requires
            width * height <= u32::MAX,
        ensures
            c.wf(),
            c.spec_width() == width,
            c.spec_height() == height,
            c.sample_count == 0,
            forall|i: int| 0 <= i < c.accum_buffer@.len() ==> c.accum_buffer@[i] == Color::black_spec(),
            forall|i: int| 0 <= i < c.pixel_buffer@.len() ==> c.pixel_buffer@[i] == 0u32,
    {
        let n: usize = (width as usize) * (height as usize);
        let pixel_buffer = zero_pixels(n);
        let accum_buffer = black_colors(n);
        Canvas { width, height, pixel_buffer, accum_buffer, sample_count: 0 }
    }

    pub fn width(&self) -> (w: u32)
        ensures
            w == self.spec_width(),
    {
        self.width
    }

    pub fn height(&self) -> (h: u32)
        ensures
            h == self.spec_height(),
    {
        self.height
    }

    pub fn pixel_count(&self) -> (n: u32)
        requires
            self.wf(),
        ensures
            n == self.spec_width() * self.spec_height(),
    {
        self.width * self.height
    }

    /// Stores one packed display color.
    pub fn paint_pixel(&mut self, x: u32, y: u32, color: u32)
        requires
            old(self).wf(),
            x < old(self).spec_width(),
            y < old(self).spec_height(),
        ensures
            final(self).wf(),
            final(self).pixel_buffer@ == old(self).pixel_buffer@.update(
                old(self).index_of(x, y),
                color,
            ),
            final(self).accum_buffer@ == old(self).accum_buffer@,
            final(self).sample_count == old(self).sample_count,
            final(self).spec_width() == old(self).spec_width(),
            final(self).spec_height() == old(self).spec_height(),
    {
        proof {
            lemma_index_in_bounds(self.width, self.height, x, y);
        }
        let idx: usize = (y as usize) * (self.width as usize) + (x as usize);
        self.pixel_buffer[idx] = color;
    }

    /// Adds one sample to a pixel's running sum and returns the new
    /// average, `sum / (sample_count + 1)`, ready for display.
    pub fn add_sample(&mut self, x: u32, y: u32, sample: Color) -> (avg: Color)
        requires
            old(self).wf(),
            x < old(self).spec_width(),
            y < old(self).spec_height(),
            old(self).sample_count < u32::MAX,
        ensures
            final(self).wf(),
            final(self).accum_buffer@ == old(self).accum_buffer@.update(
                old(self).index_of(x, y),
                old(self).accum_buffer@[old(self).index_of(x, y)].add_spec(sample),
            ),
            avg == final(self).accum_buffer@[old(self).index_of(x, y)].div_scalar_spec(
                (old(self).sample_count + 1) as u64,
            ),
            final(self).pixel_buffer@ == old(self).pixel_buffer@,
            final(self).sample_count == old(self).sample_count,
            final(self).spec_width() == old(self).spec_width(),
            final(self).spec_height() == old(self).spec_height(),
    {
        proof {
            lemma_index_in_bounds(self.width, self.height, x, y);
        }
        let idx: usize = (y as usize) * (self.width as usize) + (x as usize);
        let updated = self.accum_buffer[idx].add(sample);
        self.accum_buffer[idx] = updated;
        updated.div_scalar((self.sample_count as u64) + 1)
    }

    /// Closes a frame: one more sample has been accumulated everywhere.
    pub fn next_frame(&mut self)
        requires
            old(self).sample_count < u32::MAX,
        ensures
            final(self).sample_count == old(self).sample_count + 1,
            final(self).pixel_buffer@ == old(self).pixel_buffer@,
            final(self).accum_buffer@ == old(self).accum_buffer@,
            final(self).spec_width() == old(self).spec_width(),
            final(self).spec_height() == old(self).spec_height(),
    {
        self.sample_count = self.sample_count + 1;
    }

    /// The camera moved: every pixel's running sum goes back to zero and
    /// the sample counter restarts. This is the only reset trigger besides
    /// resizing.
    pub fn reset_accumulation(&mut self)
        requires
            old(self).wf(),
        ensures
            final(self).wf(),
            final(self).sample_count == 0,
            final(self).accum_buffer@.len() == old(self).accum_buffer@.len(),
            forall|i: int|
                0 <= i < final(self).accum_buffer@.len() ==> final(self).accum_buffer@[i]
                    == Color::black_spec(),
            final(self).pixel_buffer@ == old(self).pixel_buffer@,
            final(self).spec_width() == old(self).spec_width(),
            final(self).spec_height() == old(self).spec_height(),
    {
        let n = self.accum_buffer.len();
        self.accum_buffer = black_colors(n);
        self.sample_count = 0;
    }

    /// Resizes the viewport: fresh zeroed buffers of the new size and a
    /// restarted sample counter. Zero-sized requests are ignored, as the
    /// surface cannot take them.
    pub fn resize(&mut self, width: u32, height: u32)
        requires
            old(self).wf(),
            width * height <= u32::MAX,
        ensures
            final(self).wf(),
            width > 0 && height > 0 ==> {
                &&& final(self).spec_width() == width
                &&& final(self).spec_height() == height
                &&& final(self).sample_count == 0
                &&& forall|i: int|
                    0 <= i < final(self).accum_buffer@.len() ==> final(self).accum_buffer@[i]
                        == Color::black_spec()
                &&& forall|i: int|
                    0 <= i < final(self).pixel_buffer@.len() ==> final(self).pixel_buffer@[i]
                        == 0u32
            },
            !(width > 0 && height > 0) ==> *final(self) == *old(self),
    {
        if width > 0 && height > 0 {
            let n: usize = (width as usize) * (height as usize);
            self.width = width;
            self.height = height;
            self.pixel_buffer = zero_pixels(n);
            self.accum_buffer = black_colors(n);
            self.sample_count = 0;
        }
    }

    /// Unpacks the display buffer into RGBA bytes for upload.
    pub fn rgba_data(&self) -> (bytes: Vec<u8>)
        ensures
            bytes@ == rgba_spec(self.pixel_buffer@),
    {
        let mut bytes: Vec<u8> = Vec::new();
        let mut k: usize = 0;
        proof {
            assert(bytes@ =~= rgba_spec(self.pixel_buffer@.take(0)));
        }
        while k < self.pixel_buffer.len()
            invariant
                0 <= k <= self.pixel_buffer@.len(),
                bytes@ == rgba_spec(self.pixel_buffer@.take(k as int)),
            decreases self.pixel_buffer@.len() - k,
        {
            let color = self.pixel_buffer[k];
            bytes.push(((color >> 16) & 0xFF) as u8);
            bytes.push(((color >> 8) & 0xFF) as u8);
            bytes.push((color & 0xFF) as u8);
            bytes.push(((color >> 24) & 0xFF) as u8);
            proof {
                assert(bytes@ =~= rgba_spec(self.pixel_buffer@.take(k + 1)));
            }
            k = k + 1;
        }
        proof {
            assert(self.pixel_buffer@.take(self.pixel_buffer@.len() as int)
                =~= self.pixel_buffer@);
        }
        bytes
    }
}

/// The byte stream a packed pixel buffer unpacks to: red, green, blue,
/// alpha for each pixel in order.
pub open spec fn rgba_spec(pixels: Seq<u32>) -> Seq<u8> {
    Seq::new(
        pixels.len() * 4,
        |i: int| byte_of(pixels[i / 4], i % 4),
    )
}

/// One RGBA byte of a packed pixel.
pub open spec fn byte_of(pixel: u32, which: int) -> u8 {
    if which == 0 {
        ((pixel >> 16) & 0xFF) as u8
    } else if which == 1 {
        ((pixel >> 8) & 0xFF) as u8
    } else if which == 2 {
        (pixel & 0xFF) as u8
    } else {
        ((pixel >> 24) & 0xFF) as u8
    }
}

/// Averaging a black sum gives black at every sample count: after a
/// reset the displayed average of every pixel is exactly zero.
pub proof fn lemma_black_average(n: u64)
    requires
        n > 0,
    ensures
        Color::black_spec().div_scalar_spec(n) == Color::black_spec(),
{
}

/// A pixel's running sum after `n` equal samples have been added to an
/// empty (black) accumulator.
pub open spec fn repeat_sum(c: Color, n: nat) -> Color
    decreases n,
{
    if n == 0 {
        Color::black_spec()
    } else {
        repeat_sum(c, (n - 1) as nat).add_spec(c)
    }
}

/// While no channel saturates, `n` equal samples sum to the plain
/// channel-wise product.
pub proof fn lemma_repeat_sum_exact(c: Color, n: nat)
    requires
        c.r * n <= u64::MAX,
        c.g * n <= u64::MAX,
        c.b * n <= u64::MAX,
    ensures
        repeat_sum(c, n) == (Color {
            r: (c.r * n) as u64,
            g: (c.g * n) as u64,
            b: (c.b * n) as u64,
        }),
    decreases n,
{
    if n == 0 {
        assert(c.r * n == 0 && c.g * n == 0 && c.b * n == 0) by (nonlinear_arith)
            requires
                n == 0,
        ;
        assert(repeat_sum(c, n) == Color::black_spec());
    } else {
        assert(c.r * (n - 1) <= c.r * n && c.g * (n - 1) <= c.g * n && c.b * (n - 1) <= c.b * n)
            by (nonlinear_arith)
            requires
                n >= 1,
                c.r >= 0 && c.g >= 0 && c.b >= 0,
        ;
        lemma_repeat_sum_exact(c, (n - 1) as nat);
        assert(c.r * (n - 1) + c.r == c.r * n && c.g * (n - 1) + c.g == c.g * n && c.b * (n - 1)
            + c.b == c.b * n) by (nonlinear_arith);
        assert(repeat_sum(c, n) == repeat_sum(c, (n - 1) as nat).add_spec(c));
        assert(repeat_sum(c, (n - 1) as nat).r == (c.r * (n - 1)) as u64);
        assert(ch_add((c.r * (n - 1)) as u64, c.r) == (c.r * n) as u64);
        assert(ch_add((c.g * (n - 1)) as u64, c.g) == (c.g * n) as u64);
        assert(ch_add((c.b * (n - 1)) as u64, c.b) == (c.b * n) as u64);
    }
}

/// Accumulator convergence for a steady signal: after `n` equal samples
/// of a color whose channels never saturate the sum, the displayed
/// average is exactly that color, at every `n`.
pub proof fn lemma_constant_samples_average(c: Color, n: nat)
    requires
        1 <= n <= u32::MAX,
        c.r * n <= u64::MAX,
        c.g * n <= u64::MAX,
        c.b * n <= u64::MAX,
    ensures
        repeat_sum(c, n).div_scalar_spec(n as u64) == c,
{
    lemma_repeat_sum_exact(c, n);
    assert(c.r * n / (n as int) == c.r && c.g * n / (n as int) == c.g && c.b * n / (n as int)
        == c.b) by (nonlinear_arith)
        requires
            n >= 1,
    ;
}

/// A pixel index stays inside a well-formed buffer.
proof fn lemma_index_in_bounds(width: u32, height: u32, x: u32, y: u32)
    requires
        x < width,
        y < height,
    ensures
        y * width + x < width * height,
{
    assert(y * width + x < width * height) by (nonlinear_arith)
        requires
            x < width,
            y < height,
    ;
}

/// A fresh zero-filled pixel buffer.
fn zero_pixels(n: usize) -> (v: Vec<u32>)
    ensures
        v@.len() == n,
        forall|i: int| 0 <= i < n ==> v@[i] == 0u32,
{
    let mut v: Vec<u32> = Vec::new();
    let mut k: usize = 0;
    while k < n
        invariant
            0 <= k <= n,
            v@.len() == k,
            forall|i: int| 0 <= i < k ==> v@[i] == 0u32,
        decreases n - k,
    {
        v.push(0);
        k = k + 1;
    }
    v
}

/// A fresh black accumulation buffer.
fn black_colors(n: usize) -> (v: Vec<Color>)
    ensures
        v@.len() == n,
        forall|i: int| 0 <= i < n ==> v@[i] == Color::black_spec(),
{
    let mut v: Vec<Color> = Vec::new();
    let mut k: usize = 0;
    while k < n
        invariant
            0 <= k <= n,
            v@.len() == k,
            forall|i: int| 0 <= i < k ==> v@[i] == Color::black_spec(),
        decreases n - k,
    {
        v.push(Color::black());
        k = k + 1;
    }
    v
}

} // verus!
