//! Color utilities for editor UI.
use vstd::prelude::*;

verus! {

/// Red, green, blue and alpha of a color packed as `0xRRGGBBAA`.
pub open spec fn channels(color: u32) -> (u32, u32, u32, u32) {
    (
        (color / 0x1000000) as u32,
        (color / 0x10000 % 0x100) as u32,
        (color / 0x100 % 0x100) as u32,
        (color % 0x100) as u32,
    )
}

/// Split an RGBA color packed as `0xRRGGBBAA` into its four channels.
pub fn rgba_channels(color: u32) -> (r: (u32, u32, u32, u32))
    ensures
        r == channels(color),
{
    let r = (color >> 24) & 0xFF;
    let g = (color >> 16) & 0xFF;
    let b = (color >> 8) & 0xFF;
    let a = color & 0xFF;
    assert(r == color / 0x1000000) by (bit_vector)
        requires
            r == (color >> 24) & 0xFF,
    ;
    assert(g == color / 0x10000 % 0x100) by (bit_vector)
        requires
            g == (color >> 16) & 0xFF,
    ;
    assert(b == color / 0x100 % 0x100) by (bit_vector)
        requires
            b == (color >> 8) & 0xFF,
    ;
    assert(a == color % 0x100) by (bit_vector)
        requires
            a == color & 0xFF,
    ;
    (r, g, b, a)
}

} // verus!
