//! Packing linear colors into 32-bit pixels.

use vstd::prelude::*;
use crate::fixed::ONE;
use crate::fixed::tdiv;

verus! {

/// The packed pixel: an opaque alpha byte, then red, green and blue.
pub open spec fn spec_rgb(r: int, g: int, b: int) -> int {
    0xFF00_0000 + r * 0x1_0000 + g * 0x100 + b
}

/// A fixed-point color channel rescaled to a byte: `c * 255` whole units,
/// clamped into `[0, 255]`.
pub open spec fn spec_channel(c: int) -> int {
    let v = tdiv(c * 255, ONE as int);
    if v < 0 {
        0
    } else if v > 255 {
        255
    } else {
        v
    }
}

/// The four bytes of a packed pixel, reordered to red, green, blue, alpha.
pub open spec fn spec_web_color(c: int) -> (int, int, int, int) {
    ((c / 0x1_0000) % 0x100, (c / 0x100) % 0x100, c % 0x100, c / 0x100_0000)
}

/// Pack three bytes into one opaque pixel.
pub fn rgb(r: u8, g: u8, b: u8) -> (c: u32)
    ensures
        c as int == spec_rgb(r as int, g as int, b as int),
{
    0xFF00_0000u32 + (r as u32) * 0x1_0000 + (g as u32) * 0x100 + (b as u32)
}

fn channel(c: i64) -> (r: u8)
    ensures
        r as int == spec_channel(c as int),
{
    if c <= 0 {
        proof {
            if c < 0 {
                vstd::arithmetic::div_mod::lemma_div_pos_is_pos(
                    -(c as int) * 255,
                    ONE as int,
                );
                assert(-(c as int) * 255 == -(c as int * 255)) by (nonlinear_arith);
            }
        }
        return 0;
    }
    let v: u128 = (c as u128) * 255 / (ONE as u128);
    proof {
        assert(c as int * 255 > 0);
        assert(crate::fixed::abs_int(c as int * 255) == c as int * 255);
    }
    if v > 255 {
        255
    } else {
        v as u8
    }
}

/// Pack a fixed-point color into one opaque pixel, scaling and clamping
/// every channel to a byte.
pub fn rgbf(r: i64, g: i64, b: i64) -> (c: u32)
    ensures
        c as int == spec_rgb(
            spec_channel(r as int),
            spec_channel(g as int),
            spec_channel(b as int),
        ),
{
    rgb(channel(r), channel(g), channel(b))
}

/// Split a packed pixel into its red, green, blue and alpha bytes.
pub fn to_web_color(color: u32) -> (r: [u8; 4])
    ensures
        r@.len() == 4,
        r@[0] as int == spec_web_color(color as int).0,
        r@[1] as int == spec_web_color(color as int).1,
        r@[2] as int == spec_web_color(color as int).2,
        r@[3] as int == spec_web_color(color as int).3,
{
    [
        ((color / 0x1_0000) % 0x100) as u8,
        ((color / 0x100) % 0x100) as u8,
        (color % 0x100) as u8,
        (color / 0x100_0000) as u8,
    ]
}

} // verus!
