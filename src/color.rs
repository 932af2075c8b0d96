use vstd::prelude::*;

verus! {

/// The value that stands for 1.0 in a fraction or an intensity.
pub const FRACTION_ONE: u32 = 1000;

/// An 8-bit-per-channel color.
#[derive(Clone, Copy, Debug, PartialEq, Eq, Structural)]
pub struct Color {
    pub r: u8,
    pub g: u8,
    pub b: u8,
}

/// The 24-bit packing `(r << 16) | (g << 8) | b`.
pub open spec fn packed(r: u8, g: u8, b: u8) -> u32 {
    (r as int * 65536 + g as int * 256 + b as int) as u32
}

/// A channel multiplied by `k / FRACTION_ONE`, truncated and clamped to 255.
pub open spec fn scaled_channel(c: u8, k: u32) -> u8 {
    let v = c as int * k as int / FRACTION_ONE as int;
    if v > 255 { 255 } else { v as u8 }
}

/// A fraction `f / FRACTION_ONE` clamped to [0, 1], times 255, truncated.
pub open spec fn unit_channel(f: i64) -> u8 {
    if f <= 0 {
        0
    } else if f >= FRACTION_ONE as int {
        255
    } else {
        (f * 255 / FRACTION_ONE as int) as u8
    }
}

impl Color {
    pub open spec fn hex(self) -> u32 {
        packed(self.r, self.g, self.b)
    }

    pub fn new(r: u8, g: u8, b: u8) -> (c: Color)
        ensures
            c.r == r && c.g == g && c.b == b,
    {
        Color { r, g, b }
    }

    pub fn black() -> (c: Color)
        ensures
            c.r == 0 && c.g == 0 && c.b == 0,
    {
        Color { r: 0, g: 0, b: 0 }
    }

    /// The color whose channels are the fractions `r`, `g`, `b` (in units of
    /// `1 / FRACTION_ONE`), each clamped to [0, 1].
    pub fn from_fractions(r: i64, g: i64, b: i64) -> (c: Color)
        ensures
            c.r == unit_channel(r) && c.g == unit_channel(g) && c.b == unit_channel(b),
    {
        Color { r: fraction_to_channel(r), g: fraction_to_channel(g), b: fraction_to_channel(b) }
    }

    /// Packs the channels as `0x00RRGGBB`.
    pub fn to_hex(&self) -> (h: u32)
        ensures
            h == self.hex(),
            h < 0x0100_0000,
    {
        let r = self.r as u32;
        let g = self.g as u32;
        let b = self.b as u32;
        let h = (r << 16) | (g << 8) | b;
        assert(h == r * 65536 + g * 256 + b && h < 0x0100_0000) by (bit_vector)
            requires
                r < 256 && g < 256 && b < 256 && h == (r << 16) | (g << 8) | b,
        ;
        h
    }

    /// Each channel multiplied by `intensity / FRACTION_ONE` and clamped to 255.
    pub fn scale(&self, intensity: u32) -> (c: Color)
        ensures
            c.r == scaled_channel(self.r, intensity),
            c.g == scaled_channel(self.g, intensity),
            c.b == scaled_channel(self.b, intensity),
    {
        Color {
            r: scale_channel(self.r, intensity),
            g: scale_channel(self.g, intensity),
            b: scale_channel(self.b, intensity),
        }
    }
}

fn scale_channel(c: u8, k: u32) -> (r: u8)
    ensures
        r == scaled_channel(c, k),
{
    assert(c as u64 * k as u64 <= 255 * 0xffff_ffff) by (nonlinear_arith)
        requires
            c < 256,
            k <= 0xffff_ffff,
    ;
    let v: u64 = c as u64 * k as u64 / FRACTION_ONE as u64;
    if v > 255 {
        255
    } else {
        v as u8
    }
}

fn fraction_to_channel(f: i64) -> (r: u8)
    ensures
        r == unit_channel(f),
{
    if f <= 0 {
        0
    } else if f >= FRACTION_ONE as i64 {
        255
    } else {
        let v: i64 = f * 255 / FRACTION_ONE as i64;
        assert(0 <= v < 256) by (nonlinear_arith)
            requires
                0 < f < 1000,
                v == f * 255 / 1000,
        ;
        v as u8
    }
}

} // verus!
