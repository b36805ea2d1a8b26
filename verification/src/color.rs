//! Colors in decimal fixed point.
//!
//! A channel value of [`FP_ONE`] stands for 1.0, so `Color { r: 500, .. }`
//! is a half-intensity red channel. Sums saturate at `u64::MAX` instead of
//! wrapping; products renormalize by [`FP_ONE`] and truncate.

use vstd::prelude::*;

verus! {

/// The fixed-point unit: the channel value that stands for 1.0.
pub const FP_ONE: u64 = 1000;

/// Saturating fixed-point sum of two channel values.
pub open spec fn ch_add(a: u64, b: u64) -> u64 {
    if a + b > u64::MAX {
        u64::MAX
    } else {
        (a + b) as u64
    }
}

/// Saturating difference of two channel values (floors at zero).
pub open spec fn ch_sub(a: u64, b: u64) -> u64 {
    if a >= b {
        (a - b) as u64
    } else {
        0u64
    }
}

/// Saturating fixed-point product of two channel values: the real product
/// renormalized by [`FP_ONE`], truncated.
pub open spec fn ch_mul(a: u64, b: u64) -> u64 {
    if a * b / (FP_ONE as int) > u64::MAX {
        u64::MAX
    } else {
        (a * b / (FP_ONE as int)) as u64
    }
}

/// An RGB color; each channel is a fixed-point value (see [`FP_ONE`]).
#[derive(Clone, Copy, Debug, PartialEq, Eq, Structural)]
pub struct Color {
    pub r: u64,
    pub g: u64,
    pub b: u64,
}

/// Saturating channel sum in executable code.
fn ch_add_exec(a: u64, b: u64) -> (c: u64)
    ensures
        c == ch_add(a, b),
{
    if a > u64::MAX - b {
        u64::MAX
    } else {
        a + b
    }
}

/// Saturating channel product in executable code.
fn ch_mul_exec(a: u64, b: u64) -> (c: u64)
    ensures
        c == ch_mul(a, b),
{
    proof {
        assert((a as int) * (b as int) <= (u64::MAX as int) * (u64::MAX as int))
            by (nonlinear_arith)
            requires
                a <= u64::MAX,
                b <= u64::MAX,
        ;
    }
    let wide: u128 = (a as u128) * (b as u128) / (FP_ONE as u128);
    if wide > u64::MAX as u128 {
        u64::MAX
    } else {
        wide as u64
    }
}

impl Color {
    pub fn new(r: u64, g: u64, b: u64) -> (c: Color)
        ensures
            c == (Color { r, g, b }),
    {
        Color { r, g, b }
    }

    /// Maps a fixed-point normal component in [-FP_ONE, FP_ONE] to a channel
    /// in [0, FP_ONE] by `(v + 1) / 2`.
    #[allow(non_snake_case)]
    pub fn newFromNormals(r: i64, g: i64, b: i64) -> (c: Color)
        requires
            -(FP_ONE as int) <= r <= i64::MAX - FP_ONE,
            -(FP_ONE as int) <= g <= i64::MAX - FP_ONE,
            -(FP_ONE as int) <= b <= i64::MAX - FP_ONE,
        ensures
            c.r == (r + FP_ONE) as u64 / 2,
            c.g == (g + FP_ONE) as u64 / 2,
            c.b == (b + FP_ONE) as u64 / 2,
    {
        Color {
            r: ((r + FP_ONE as i64) / 2) as u64,
            g: ((g + FP_ONE as i64) / 2) as u64,
            b: ((b + FP_ONE as i64) / 2) as u64,
        }
    }

    pub open spec fn black_spec() -> Color {
        Color { r: 0u64, g: 0u64, b: 0u64 }
    }

    pub open spec fn white_spec() -> Color {
        Color { r: FP_ONE, g: FP_ONE, b: FP_ONE }
    }

    pub fn black() -> (c: Color)
        ensures
            c == Color::black_spec(),
    {
        Color { r: 0, g: 0, b: 0 }
    }

    pub fn white() -> (c: Color)
        ensures
            c == Color::white_spec(),
    {
        Color { r: FP_ONE, g: FP_ONE, b: FP_ONE }
    }

    pub open spec fn add_spec(self, rhs: Color) -> Color {
        Color { r: ch_add(self.r, rhs.r), g: ch_add(self.g, rhs.g), b: ch_add(self.b, rhs.b) }
    }

    pub open spec fn sub_spec(self, rhs: Color) -> Color {
        Color { r: ch_sub(self.r, rhs.r), g: ch_sub(self.g, rhs.g), b: ch_sub(self.b, rhs.b) }
    }

    pub open spec fn mul_spec(self, rhs: Color) -> Color {
        Color { r: ch_mul(self.r, rhs.r), g: ch_mul(self.g, rhs.g), b: ch_mul(self.b, rhs.b) }
    }

    pub open spec fn mul_scalar_spec(self, rhs: u64) -> Color {
        Color { r: ch_mul(self.r, rhs), g: ch_mul(self.g, rhs), b: ch_mul(self.b, rhs) }
    }

    pub open spec fn div_scalar_spec(self, rhs: u64) -> Color
        recommends
            rhs > 0,
    {
        Color { r: (self.r / rhs) as u64, g: (self.g / rhs) as u64, b: (self.b / rhs) as u64 }
    }

    /// Channel-wise saturating sum.
    pub fn add(self, rhs: Color) -> (c: Color)
        ensures
            c == self.add_spec(rhs),
    {
        Color {
            r: ch_add_exec(self.r, rhs.r),
            g: ch_add_exec(self.g, rhs.g),
            b: ch_add_exec(self.b, rhs.b),
        }
    }

    /// Channel-wise difference, floored at zero.
    pub fn sub(self, rhs: Color) -> (c: Color)
        ensures
            c == self.sub_spec(rhs),
    {
        Color {
            r: if self.r >= rhs.r { self.r - rhs.r } else { 0 },
            g: if self.g >= rhs.g { self.g - rhs.g } else { 0 },
            b: if self.b >= rhs.b { self.b - rhs.b } else { 0 },
        }
    }

    /// Channel-wise fixed-point product.
    pub fn mul(self, rhs: Color) -> (c: Color)
        ensures
            c == self.mul_spec(rhs),
    {
        Color {
            r: ch_mul_exec(self.r, rhs.r),
            g: ch_mul_exec(self.g, rhs.g),
            b: ch_mul_exec(self.b, rhs.b),
        }
    }

    /// Fixed-point product of every channel with one scalar.
    pub fn mul_scalar(self, rhs: u64) -> (c: Color)
        ensures
            c == self.mul_scalar_spec(rhs),
    {
        Color {
            r: ch_mul_exec(self.r, rhs),
            g: ch_mul_exec(self.g, rhs),
            b: ch_mul_exec(self.b, rhs),
        }
    }

    /// Divides every channel by a plain (unscaled) count; used for the
    /// running average of accumulated samples.
    pub fn div_scalar(self, rhs: u64) -> (c: Color)
        requires
            rhs > 0,
        ensures
            c == self.div_scalar_spec(rhs),
    {
        Color { r: self.r / rhs, g: self.g / rhs, b: self.b / rhs }
    }

    /// Channel-wise clamp into `[lo, hi]`.
    pub fn clamp(&self, lo: u64, hi: u64) -> (c: Color)
        requires
            lo <= hi,
        ensures
            c.r == clamp_ch(self.r, lo, hi),
            c.g == clamp_ch(self.g, lo, hi),
            c.b == clamp_ch(self.b, lo, hi),
    {
        Color {
            r: clamp_ch_exec(self.r, lo, hi),
            g: clamp_ch_exec(self.g, lo, hi),
            b: clamp_ch_exec(self.b, lo, hi),
        }
    }

    /// Gamma correction: the fixed-point square root of each channel.
    /// The result `s` of a channel `v` is the unique integer with
    /// `s * s <= v * FP_ONE < (s + 1) * (s + 1)`, which is the truncated
    /// fixed-point representation of `sqrt(v / FP_ONE)`.
    pub fn gamma_correct(self) -> (c: Color)
        ensures
            is_fixed_sqrt(c.r, self.r),
            is_fixed_sqrt(c.g, self.g),
            is_fixed_sqrt(c.b, self.b),
    {
        Color {
            r: fixed_sqrt(self.r),
            g: fixed_sqrt(self.g),
            b: fixed_sqrt(self.b),
        }
    }

    /// The 8-bit quantization of one channel: rescaled to 0..=255 and
    /// clamped.
    pub open spec fn quantize_ch(v: u64) -> int {
        if v * 255 / (FP_ONE as int) > 255 {
            255
        } else {
            v * 255 / (FP_ONE as int)
        }
    }

    /// The packed display value of black.
    pub open spec fn quantize_pack_black() -> u32 {
        0u32
    }

    /// Packs the color as `0x00RRGGBB` with 8 bits per channel.
    pub fn to_u32(&self) -> (p: u32)
        ensures
            p == Color::quantize_ch(self.r) * 0x10000 + Color::quantize_ch(self.g) * 0x100
                + Color::quantize_ch(self.b),
    {
        let r8 = quantize_ch_exec(self.r);
        let g8 = quantize_ch_exec(self.g);
        let b8 = quantize_ch_exec(self.b);
        r8 * 0x10000 + g8 * 0x100 + b8
    }
}

/// One channel clamped into `[lo, hi]`.
pub open spec fn clamp_ch(v: u64, lo: u64, hi: u64) -> u64
    recommends
        lo <= hi,
{
    if v < lo {
        lo
    } else if v > hi {
        hi
    } else {
        v
    }
}

fn clamp_ch_exec(v: u64, lo: u64, hi: u64) -> (c: u64)
    requires
        lo <= hi,
    ensures
        c == clamp_ch(v, lo, hi),
{
    if v < lo {
        lo
    } else if v > hi {
        hi
    } else {
        v
    }
}

fn quantize_ch_exec(v: u64) -> (q: u32)
    ensures
        q == Color::quantize_ch(v),
        q <= 255,
{
    let wide: u128 = (v as u128) * 255 / (FP_ONE as u128);
    if wide > 255 {
        255
    } else {
        wide as u32
    }
}

/// `s` is the truncated square root of `v * FP_ONE`.
pub open spec fn is_fixed_sqrt(s: u64, v: u64) -> bool {
    s * s <= v * FP_ONE && v * FP_ONE < (s + 1) * (s + 1)
}

/// Truncated integer square root of `v * FP_ONE`.
fn fixed_sqrt(v: u64) -> (s: u64)
    ensures
        is_fixed_sqrt(s, v),
{
    proof {
        assert((v as int) * (FP_ONE as int) <= (u64::MAX as int) * (u64::MAX as int))
            by (nonlinear_arith)
            requires
                v <= u64::MAX,
                FP_ONE <= u64::MAX,
        ;
    }
    let x: u128 = (v as u128) * (FP_ONE as u128);
    let mut lo: u128 = 0;
    let mut hi: u128 = 0x1_0000_0000_0000_0000;
    proof {
        assert((0x1_0000_0000_0000_0000int) * (0x1_0000_0000_0000_0000int)
            == 0x1_0000_0000_0000_0000_0000_0000_0000_0000int);
    }
    while lo + 1 < hi
        invariant
            lo < hi <= 0x1_0000_0000_0000_0000u128,
            lo * lo <= x,
            hi * hi > x,
        decreases hi - lo,
    {
        let mid = lo + (hi - lo) / 2;
        proof {
            assert(mid * mid <= u128::MAX as int) by (nonlinear_arith)
                requires
                    mid < 0x1_0000_0000_0000_0000u128,
            ;
        }
        if mid * mid <= x {
            lo = mid;
        } else {
            hi = mid;
        }
    }
    proof {
        assert(lo < 0x1_0000_0000_0000_0000u128);
    }
    lo as u64
}

/// Mixes two colors: `c1 * (1 - t) + c2 * t` in fixed point.
pub fn lerp(color1: &Color, color2: &Color, t: u64) -> (c: Color)
    requires
        t <= FP_ONE,
    ensures
        c == color1.mul_scalar_spec((FP_ONE - t) as u64).add_spec(color2.mul_scalar_spec(t)),
{
    color1.mul_scalar(FP_ONE - t).add(color2.mul_scalar(t))
}

} // verus!
