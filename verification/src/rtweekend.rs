//! Fixed-point scalar arithmetic and small numeric utilities shared by the
//! whole kernel.
//!
//! A scalar is an `i64` whose raw value `x` stands for the real number
//! `x / SCALE`. Multiplication and division rescale their exact integer
//! result with truncating division (rounding toward zero), and every
//! operation saturates at `±CLIP_MAX`, which keeps all of them total.

use vstd::prelude::*;

verus! {

/// One world unit, as a raw scalar: raw value `x` stands for `x / SCALE`.
pub const SCALE: i64 = 65536;

/// `SCALE * SCALE`, the scale of a product of two raw scalars.
pub const SCALE2: i64 = 65536 * 65536;

/// Saturation bound of every scalar operation: `2^60 - 1`.
/// Far beyond any value a scene produces, and small enough that a sum of two
/// clipped values still fits in an `i64`.
pub const CLIP_MAX: i64 = 0x1000_0000_0000_0000 - 1;

/// `pi` at scale `SCALE`, rounded toward zero.
pub const PI_FX: i64 = 205887;

/// Saturate an unbounded integer into `[-CLIP_MAX, CLIP_MAX]`.
pub open spec fn clip(x: int) -> int {
    if x > CLIP_MAX as int {
        CLIP_MAX as int
    } else if x < -(CLIP_MAX as int) {
        -(CLIP_MAX as int)
    } else {
        x
    }
}

/// Division truncated toward zero, for a positive divisor.
pub open spec fn tdiv(a: int, b: int) -> int
    recommends
        b > 0,
{
    if a >= 0 {
        a / b
    } else {
        -((-a) / b)
    }
}

/// Saturating fixed-point addition.
pub open spec fn add_fx(a: int, b: int) -> int {
    clip(a + b)
}

/// Saturating fixed-point subtraction.
pub open spec fn sub_fx(a: int, b: int) -> int {
    clip(a - b)
}

/// Saturating fixed-point multiplication: the exact product, rescaled.
pub open spec fn mul_fx(a: int, b: int) -> int {
    clip(tdiv(a * b, SCALE as int))
}

/// Saturating fixed-point division by a positive scalar.
pub open spec fn div_fx(a: int, b: int) -> int
    recommends
        b > 0,
{
    clip(tdiv(a * (SCALE as int), b))
}

/// Truncating division leaves a remainder smaller than the divisor, on the
/// same side of zero as the dividend.
pub proof fn lemma_tdiv_rem(a: int, b: int)
    requires
        b > 0,
    ensures
        -b < a - b * tdiv(a, b) < b,
        a >= 0 ==> a - b * tdiv(a, b) >= 0,
        a <= 0 ==> a - b * tdiv(a, b) <= 0,
{
    if a >= 0 {
        vstd::arithmetic::div_mod::lemma_fundamental_div_mod(a, b);
        vstd::arithmetic::div_mod::lemma_mod_bound(a, b);
    } else {
        vstd::arithmetic::div_mod::lemma_fundamental_div_mod(-a, b);
        vstd::arithmetic::div_mod::lemma_mod_bound(-a, b);
        assert(b * -((-a) / b) == -(b * ((-a) / b))) by (nonlinear_arith);
    }
}

/// Truncating division undoes an exact multiplication: `(x*d)/d == x`.
pub proof fn lemma_tdiv_multiples_vanish(x: int, d: int)
    requires
        d > 0,
    ensures
        tdiv(x * d, d) == x,
{
    vstd::arithmetic::div_mod::lemma_div_multiples_vanish(x, d);
    if x >= 0 {
        assert(x * d >= 0) by (nonlinear_arith)
            requires
                x >= 0,
                d > 0,
        ;
        assert(x * d == d * x) by (nonlinear_arith);
    } else {
        assert(x * d < 0) by (nonlinear_arith)
            requires
                x < 0,
                d > 0,
        ;
        vstd::arithmetic::div_mod::lemma_div_multiples_vanish(-x, d);
        assert(-(x * d) == d * -x) by (nonlinear_arith);
    }
}

/// Truncating division by a positive divisor is monotonic.
pub proof fn lemma_tdiv_monotonic(a1: int, a2: int, b: int)
    requires
        a1 <= a2,
        b > 0,
    ensures
        tdiv(a1, b) <= tdiv(a2, b),
{
    if a1 >= 0 {
        vstd::arithmetic::div_mod::lemma_div_is_ordered(a1, a2, b);
    } else if a2 >= 0 {
        vstd::arithmetic::div_mod::lemma_div_pos_is_pos(a2, b);
        vstd::arithmetic::div_mod::lemma_div_pos_is_pos(-a1, b);
    } else {
        vstd::arithmetic::div_mod::lemma_div_is_ordered(-a2, -a1, b);
    }
}

/// A product of two scalars in `[0, 1]` stays in `[0, 1]`, and below either
/// factor.
pub proof fn lemma_mul_fx_unit(a: int, b: int)
    requires
        0 <= a <= SCALE as int,
        0 <= b <= SCALE as int,
    ensures
        0 <= mul_fx(a, b) <= a,
{
    assert(0 <= a * b <= a * 65536) by (nonlinear_arith)
        requires
            0 <= a,
            0 <= b <= 65536,
    ;
    lemma_tdiv_monotonic(0, a * b, SCALE as int);
    lemma_tdiv_monotonic(a * b, a * 65536, SCALE as int);
    lemma_tdiv_multiples_vanish(a, SCALE as int);
}

/// `r` is the integer square root of `n`.
pub open spec fn is_isqrt(n: int, r: int) -> bool {
    0 <= r && r * r <= n && n < (r + 1) * (r + 1)
}

/// The integer square root is unique.
pub proof fn lemma_isqrt_unique(n: int, r1: int, r2: int)
    by (nonlinear_arith)
    requires
        is_isqrt(n, r1),
        is_isqrt(n, r2),
    ensures
        r1 == r2,
{
}

/// An integer square root exists for every nonnegative integer.
pub proof fn lemma_isqrt_exists(n: int)
    requires
        n >= 0,
    ensures
        exists|r: int| is_isqrt(n, r),
    decreases n,
{
    if n == 0 {
        assert(is_isqrt(0, 0));
    } else {
        lemma_isqrt_exists(n - 1);
        let r = choose|r: int| #[trigger] is_isqrt(n - 1, r);
        if (r + 1) * (r + 1) <= n {
            assert((r + 2) * (r + 2) > n) by (nonlinear_arith)
                requires
                    r >= 0,
                    n - 1 < (r + 1) * (r + 1),
                    (r + 1) * (r + 1) <= n,
            ;
            assert(is_isqrt(n, r + 1));
        } else {
            assert(is_isqrt(n, r));
        }
    }
}

/// The integer square root of `SCALE * x`: the fixed-point square root of a
/// nonnegative scalar `x`.
pub open spec fn sqrt_fx(x: int) -> int {
    choose|r: int| #[trigger] is_isqrt((SCALE as int) * x, r)
}

/// The fixed-point square root of a nonnegative scalar satisfies its
/// defining bounds (in particular, it is nonnegative).
pub proof fn lemma_sqrt_fx_bounds(x: int)
    requires
        x >= 0,
    ensures
        is_isqrt((SCALE as int) * x, sqrt_fx(x)),
{
    lemma_isqrt_exists((SCALE as int) * x);
    assert(is_isqrt((SCALE as int) * x, sqrt_fx(x)));
}

/// For a nonnegative scalar, `sqrt_fx` is characterized by `is_isqrt`.
pub proof fn lemma_sqrt_fx_is_isqrt(x: int, r: int)
    requires
        is_isqrt((SCALE as int) * x, r),
    ensures
        sqrt_fx(x) == r,
{
    assert(is_isqrt((SCALE as int) * x, sqrt_fx(x)));
    lemma_isqrt_unique((SCALE as int) * x, sqrt_fx(x), r);
}

/// Saturate a wide intermediate back into the scalar range.
pub fn clip_i128(x: i128) -> (r: i64)
    ensures
        r as int == clip(x as int),
{
    if x > CLIP_MAX as i128 {
        CLIP_MAX
    } else if x < -(CLIP_MAX as i128) {
        -CLIP_MAX
    } else {
        x as i64
    }
}

/// Division of a wide intermediate truncated toward zero, for a positive
/// divisor.
pub fn tdiv_i128(a: i128, b: i128) -> (r: i128)
    requires
        b > 0,
        a > i128::MIN,
    ensures
        r as int == tdiv(a as int, b as int),
{
    if a >= 0 {
        let q: u128 = (a as u128) / (b as u128);
        proof {
            vstd::arithmetic::div_mod::lemma_div_is_ordered_by_denominator(a as int, 1, b as int);
        }
        q as i128
    } else {
        let m: u128 = ((-a) as u128) / (b as u128);
        proof {
            vstd::arithmetic::div_mod::lemma_div_is_ordered_by_denominator(
                (-a) as int,
                1,
                b as int,
            );
        }
        -(m as i128)
    }
}

/// Saturating fixed-point addition.
pub fn fadd(a: i64, b: i64) -> (r: i64)
    ensures
        r as int == add_fx(a as int, b as int),
{
    clip_i128(a as i128 + b as i128)
}

/// Saturating fixed-point subtraction.
pub fn fsub(a: i64, b: i64) -> (r: i64)
    ensures
        r as int == sub_fx(a as int, b as int),
{
    clip_i128(a as i128 - b as i128)
}

/// Saturating fixed-point multiplication.
pub fn fmul(a: i64, b: i64) -> (r: i64)
    ensures
        r as int == mul_fx(a as int, b as int),
{
    proof {
        assert(-0x4000_0000_0000_0000_0000_0000_0000_0000int <= (a as int) * (b as int)
            <= 0x4000_0000_0000_0000_0000_0000_0000_0000int) by (nonlinear_arith)
            requires
                -0x8000_0000_0000_0000int <= a as int <= 0x7fff_ffff_ffff_ffffint,
                -0x8000_0000_0000_0000int <= b as int <= 0x7fff_ffff_ffff_ffffint,
        ;
    }
    let p: i128 = (a as i128) * (b as i128);
    clip_i128(tdiv_i128(p, SCALE as i128))
}

/// Saturating fixed-point division by a positive scalar.
pub fn fdiv(a: i64, b: i64) -> (r: i64)
    requires
        b > 0,
    ensures
        r as int == div_fx(a as int, b as int),
{
    let p: i128 = (a as i128) * 65536i128;
    assert(p > i128::MIN);
    clip_i128(tdiv_i128(p, b as i128))
}

/// Integer square root by bisection.
pub fn isqrt_u128(n: u128) -> (r: u128)
    ensures
        is_isqrt(n as int, r as int),
        r < 0x1_0000_0000_0000_0000,
{
    let mut lo: u128 = 0;
    let mut hi: u128 = 0x1_0000_0000_0000_0000;
    proof {
        assert((hi as int) * (hi as int) > n as int) by (nonlinear_arith)
            requires
                hi == 0x1_0000_0000_0000_0000u128,
                n <= 0xffff_ffff_ffff_ffff_ffff_ffff_ffff_ffffu128,
        ;
    }
    while lo + 1 < hi
        invariant
            lo < hi <= 0x1_0000_0000_0000_0000u128,
            (lo as int) * (lo as int) <= n as int,
            (n as int) < (hi as int) * (hi as int),
        decreases hi - lo,
    {
        let mid: u128 = lo + (hi - lo) / 2;
        proof {
            assert((mid as int) * (mid as int)
                <= 0xffff_ffff_ffff_ffff_ffff_ffff_ffff_ffffint) by (nonlinear_arith)
                requires
                    mid < 0x1_0000_0000_0000_0000u128,
            ;
        }
        let sq: u128 = mid * mid;
        if sq <= n {
            lo = mid;
        } else {
            hi = mid;
        }
    }
    lo
}

/// Fixed-point square root of a nonnegative scalar.
pub fn fsqrt(x: i64) -> (r: i64)
    requires
        x >= 0,
    ensures
        r as int == sqrt_fx(x as int),
        r >= 0,
{
    let n: u128 = (x as u128) * 65536u128;
    let s: u128 = isqrt_u128(n);
    proof {
        assert((s as int) * (s as int) <= n as int);
        assert(n as int <= 0x7fff_ffff_ffff_ffffint * 65536);
        assert(s as int <= 0x7fff_ffff_ffff_ffffint) by (nonlinear_arith)
            requires
                (s as int) * (s as int) <= 0x7fff_ffff_ffff_ffffint * 65536,
                s >= 0,
        ;
        lemma_sqrt_fx_is_isqrt(x as int, s as int);
    }
    s as i64
}

/// Relies on `rand::random`: one uniformly distributed `u32`. Nothing is
/// promised of the value, so whatever callers prove holds of every outcome.
#[verifier::external_body]
pub(crate) fn rand_u32() -> u32 {
    rand::random::<u32>()
}

/// The clamp used before quantization: below `min` gives `min`, above `max`
/// gives `max`, anything else passes through.
pub open spec fn clamp_spec(x: int, min: int, max: int) -> int {
    if x < min {
        min
    } else if x > max {
        max
    } else {
        x
    }
}

/// Clamp a scalar into `[min, max]`.
pub fn clamp(x: i64, min: i64, max: i64) -> (r: i64)
    ensures
        r as int == clamp_spec(x as int, min as int, max as int),
{
    if x < min {
        min
    } else if x > max {
        max
    } else {
        x
    }
}

/// Degrees to radians: `d * pi / 180`, in one rescaling step.
pub open spec fn deg2rad_fx(d: int) -> int {
    clip(tdiv(d * (PI_FX as int), 180 * (SCALE as int)))
}

/// Convert an angle in degrees to radians.
pub fn degrees_to_radians(degrees: i64) -> (r: i64)
    ensures
        r as int == deg2rad_fx(degrees as int),
{
    let p: i128 = (degrees as i128) * (PI_FX as i128);
    clip_i128(tdiv_i128(p, 180 * (SCALE as i128)))
}

} // verus!
