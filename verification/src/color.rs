//! Final pixel mapping: average the accumulated samples, gamma-correct,
//! clamp and quantize each channel to a byte.

use vstd::prelude::*;

use crate::rtweekend::{
    clamp_spec, is_isqrt, lemma_sqrt_fx_bounds, lemma_tdiv_monotonic, sqrt_fx, tdiv, tdiv_i128,
    CLIP_MAX, SCALE,
};
use crate::vec3::{in_range, Color};

verus! {

/// One channel of the pixel mapping: divide the summed samples by the
/// sample count, gamma-correct with a square root (a negative average maps
/// to zero), scale into `[0, 256)` and truncate, clamping the result to a
/// byte.
pub open spec fn gamma_byte_spec(c: int, samples: int) -> int
    recommends
        samples > 0,
{
    let linear = tdiv(c, samples);
    let g = if linear < 0 {
        0
    } else {
        sqrt_fx(linear)
    };
    let q = tdiv(g * 256, SCALE as int);
    clamp_spec(q, 0, 255)
}

/// The quantized channel always lands in a byte: re-quantizing a value
/// already in gamma space cannot leave `[0, 255]`.
pub proof fn lemma_gamma_byte_in_byte(c: int, samples: int)
    requires
        samples > 0,
    ensures
        0 <= gamma_byte_spec(c, samples) <= 255,
{
}

/// The fixed-point square root is monotonic.
proof fn lemma_sqrt_fx_monotonic(x1: int, x2: int)
    requires
        0 <= x1 <= x2,
    ensures
        sqrt_fx(x1) <= sqrt_fx(x2),
{
    lemma_sqrt_fx_bounds(x1);
    lemma_sqrt_fx_bounds(x2);
    let r1 = sqrt_fx(x1);
    let r2 = sqrt_fx(x2);
    assert(r1 <= r2) by (nonlinear_arith)
        requires
            0 <= r1,
            0 <= r2,
            r1 * r1 <= 65536 * x1,
            65536 * x2 < (r2 + 1) * (r2 + 1),
            x1 <= x2,
    ;
}

/// Gamma mapping is monotonic: a channel that gathered no more light than
/// another is never quantized to a larger byte.
pub proof fn lemma_gamma_byte_monotonic(c1: int, c2: int, samples: int)
    requires
        samples > 0,
        c1 <= c2,
    ensures
        gamma_byte_spec(c1, samples) <= gamma_byte_spec(c2, samples),
{
    lemma_tdiv_monotonic(c1, c2, samples);
    let lin1 = tdiv(c1, samples);
    let lin2 = tdiv(c2, samples);
    let g1 = if lin1 < 0 {
        0
    } else {
        sqrt_fx(lin1)
    };
    let g2 = if lin2 < 0 {
        0
    } else {
        sqrt_fx(lin2)
    };
    if lin1 >= 0 {
        lemma_sqrt_fx_monotonic(lin1, lin2);
    } else if lin2 >= 0 {
        lemma_sqrt_fx_bounds(lin2);
    }
    assert(g1 <= g2);
    lemma_tdiv_monotonic(g1 * 256, g2 * 256, SCALE as int);
}

/// One channel of `write_color`.
fn channel_byte(c: i64, samples: u32) -> (b: u8)
    requires
        samples > 0,
        -CLIP_MAX <= c <= CLIP_MAX,
    ensures
        b as int == gamma_byte_spec(c as int, samples as int),
{
    let lin128 = tdiv_i128(c as i128, samples as i128);
    proof {
        if c >= 0 {
            vstd::arithmetic::div_mod::lemma_div_is_ordered_by_denominator(
                c as int,
                1,
                samples as int,
            );
        } else {
            vstd::arithmetic::div_mod::lemma_div_is_ordered_by_denominator(
                -c as int,
                1,
                samples as int,
            );
        }
    }
    let linear = lin128 as i64;
    if linear < 0 {
        return 0;
    }
    let g = crate::rtweekend::fsqrt(linear);
    proof {
        lemma_sqrt_fx_bounds(linear as int);
        assert(is_isqrt((SCALE as int) * (linear as int), g as int));
        assert((g as int) * (g as int) <= 65536 * (CLIP_MAX as int));
        assert(g as int <= 0x7fff_ffff_ffffint) by (nonlinear_arith)
            requires
                0 <= g as int,
                (g as int) * (g as int) <= 65536 * 0xfff_ffff_ffff_ffffint,
        ;
    }
    let q128 = tdiv_i128((g as i128) * 256, SCALE as i128);
    proof {
        vstd::arithmetic::div_mod::lemma_div_pos_is_pos((g as int) * 256, SCALE as int);
    }
    if q128 > 255 {
        255
    } else {
        q128 as u8
    }
}

/// Map an accumulated pixel color to its quantized red, green and blue
/// bytes: divide by the sample count, gamma-correct, clamp and truncate
/// each channel.
pub fn write_color(pixel_color: Color, samples_per_pixel: u32) -> (rgb: (u8, u8, u8))
    requires
        samples_per_pixel > 0,
        in_range(pixel_color),
    ensures
        rgb.0 as int == gamma_byte_spec(pixel_color.x as int, samples_per_pixel as int),
        rgb.1 as int == gamma_byte_spec(pixel_color.y as int, samples_per_pixel as int),
        rgb.2 as int == gamma_byte_spec(pixel_color.z as int, samples_per_pixel as int),
{
    let r = channel_byte(pixel_color.x, samples_per_pixel);
    let g = channel_byte(pixel_color.y, samples_per_pixel);
    let b = channel_byte(pixel_color.z, samples_per_pixel);
    (r, g, b)
}

} // verus!
