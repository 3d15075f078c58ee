//! Laying a chrome pixel over what is already in the overlay.
//!
//! The chrome's renderer hands over colours premultiplied by their alpha; the overlay
//! keeps straight RGBA. A fully transparent colour leaves the pixel alone, an opaque one
//! replaces it, and anything between is un-premultiplied and mixed over the pixel by the
//! usual "over" rule in integer arithmetic.

use vstd::prelude::*;

verus! {

/// A colour channel with its alpha taken back out.
pub open spec fn straight(channel: u8, alpha: u8) -> int {
    (channel as int * 255) / (alpha as int)
}

/// The alpha of a colour of alpha `a` laid over a pixel of alpha `under`.
pub open spec fn over_alpha(a: int, under: int) -> int {
    let out = a + under * (255 - a) / 255;
    if out > 255 {
        255
    } else {
        out
    }
}

/// One channel of a colour of alpha `a` laid over a pixel channel `d` of alpha `under`.
pub open spec fn over_channel(s: int, a: int, d: u8, under: int) -> u8 {
    let out = (s * a + d as int * under * (255 - a) / 255) / over_alpha(a, under);
    (if out > 255 {
        255
    } else {
        out
    }) as u8
}

/// A premultiplied `color` laid over the straight RGBA `pixel`.
pub open spec fn blended(pixel: (u8, u8, u8, u8), color: (u8, u8, u8, u8)) -> (u8, u8, u8, u8) {
    let a = color.3 as int;
    if a == 0 {
        pixel
    } else if a == 255 {
        (color.0, color.1, color.2, 255)
    } else {
        let sr = straight(color.0, color.3);
        let sg = straight(color.1, color.3);
        let sb = straight(color.2, color.3);
        let under = pixel.3 as int;
        if under == 0 {
            (sr as u8, sg as u8, sb as u8, color.3)
        } else {
            (
                over_channel(sr, a, pixel.0, under),
                over_channel(sg, a, pixel.1, under),
                over_channel(sb, a, pixel.2, under),
                over_alpha(a, under) as u8,
            )
        }
    }
}

/// Laying a colour over a pixel never leaves it more transparent than the colour.
pub proof fn lemma_over_keeps_coverage(pixel: (u8, u8, u8, u8), color: (u8, u8, u8, u8))
    requires
        color.3 > 0,
    ensures
        blended(pixel, color).3 >= color.3,
{
    let a = color.3 as int;
    let under = pixel.3 as int;
    if 0 < a < 255 && under > 0 {
        assert(under * (255 - a) / 255 >= 0) by (nonlinear_arith)
            requires
                0 < under <= 255,
                0 < a < 255,
        ;
    }
}

fn straight_of(channel: u8, alpha: u8) -> (s: u32)
    requires
        alpha > 0,
    ensures
        s == straight(channel, alpha),
        s <= 255 * 255,
{
    let s = (channel as u32) * 255 / (alpha as u32);
    assert((channel as int * 255) / (alpha as int) <= 255 * 255) by (nonlinear_arith)
        requires
            channel <= 255,
            alpha >= 1,
    ;
    s
}

fn over_alpha_of(a: u32, under: u32) -> (out: u32)
    requires
        0 < a < 255,
        0 < under <= 255,
    ensures
        out == over_alpha(a as int, under as int),
        a <= out <= 255,
{
    assert(under * (255 - a) <= 255 * 255) by (nonlinear_arith)
        requires
            0 < under <= 255,
            0 < a < 255,
    ;
    assert(under * (255 - a) / 255 >= 0) by (nonlinear_arith)
        requires
            0 < under <= 255,
            0 < a < 255,
    ;
    let out = a + under * (255 - a) / 255;
    if out > 255 {
        255
    } else {
        out
    }
}

fn over_channel_of(s: u32, a: u32, d: u8, under: u32) -> (c: u8)
    requires
        s <= 255 * 255,
        0 < a < 255,
        0 < under <= 255,
    ensures
        c == over_channel(s as int, a as int, d, under as int),
{
    let out_a = over_alpha_of(a, under);
    assert(s * a <= 255 * 255 * 255) by (nonlinear_arith)
        requires
            s <= 255 * 255,
            a < 255,
    ;
    assert(d as u32 * under <= 255 * 255) by (nonlinear_arith)
        requires
            d <= 255,
            under <= 255,
    ;
    assert(d as u32 * under * (255 - a) <= 255 * 255 * 255) by (nonlinear_arith)
        requires
            d <= 255,
            under <= 255,
            0 < a < 255,
    ;
    let mixed = (s * a + (d as u32) * under * (255 - a) / 255) / out_a;
    let clamped = if mixed > 255 {
        255
    } else {
        mixed
    };
    clamped as u8
}

/// Lays a premultiplied `color` (red, green, blue, alpha) over the straight RGBA
/// `pixel`.
pub fn blend_pixel(pixel: (u8, u8, u8, u8), color: (u8, u8, u8, u8)) -> (out: (u8, u8, u8, u8))
    ensures
        out == blended(pixel, color),
{
    let a = color.3 as u32;
    if a == 0 {
        return pixel;
    }
    if a == 255 {
        return (color.0, color.1, color.2, 255);
    }
    let sr = straight_of(color.0, color.3);
    let sg = straight_of(color.1, color.3);
    let sb = straight_of(color.2, color.3);
    let under = pixel.3 as u32;
    if under == 0 {
        (
            #[verifier::truncate] (sr as u8),
            #[verifier::truncate] (sg as u8),
            #[verifier::truncate] (sb as u8),
            color.3,
        )
    } else {
        let out_a = over_alpha_of(a, under);
        (
            over_channel_of(sr, a, pixel.0, under),
            over_channel_of(sg, a, pixel.1, under),
            over_channel_of(sb, a, pixel.2, under),
            out_a as u8,
        )
    }
}

} // verus!
