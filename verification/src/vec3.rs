//! Three-component fixed-point vectors: the algebra under points, colors,
//! directions, reflection and refraction.
//!
//! Every executable operation returns exactly the value of its spec mirror
//! (`vadd`, `dot_spec`, `reflect_spec`, ...), which is built from the
//! saturating scalar operations of `rtweekend`.

use vstd::prelude::*;

use crate::rtweekend::{
    add_fx, clip, div_fx, fadd, fdiv, fmul, fsqrt, fsub, mul_fx, sqrt_fx, sub_fx, tdiv, CLIP_MAX,
    SCALE, SCALE2,
};

verus! {

/// A vector of three fixed-point scalars.
#[derive(Clone, Copy, PartialEq, Eq, Structural, Debug)]
pub struct Vec3 {
    pub x: i64,
    pub y: i64,
    pub z: i64,
}

/// A location in space.
pub type Point3 = Vec3;

/// A color: red, green and blue, each with `SCALE` standing for full
/// intensity.
pub type Color = Vec3;

/// All components within the saturation bound; every operation here keeps a
/// vector in range, and the wide-intermediate operations (`dot`) ask for it.
pub open spec fn in_range(v: Vec3) -> bool {
    -(CLIP_MAX as int) <= v.x as int <= CLIP_MAX as int
        && -(CLIP_MAX as int) <= v.y as int <= CLIP_MAX as int
        && -(CLIP_MAX as int) <= v.z as int <= CLIP_MAX as int
}

/// Component-wise saturating sum.
pub open spec fn vadd(a: Vec3, b: Vec3) -> Vec3 {
    Vec3 {
        x: add_fx(a.x as int, b.x as int) as i64,
        y: add_fx(a.y as int, b.y as int) as i64,
        z: add_fx(a.z as int, b.z as int) as i64,
    }
}

/// Component-wise saturating difference.
pub open spec fn vsub(a: Vec3, b: Vec3) -> Vec3 {
    Vec3 {
        x: sub_fx(a.x as int, b.x as int) as i64,
        y: sub_fx(a.y as int, b.y as int) as i64,
        z: sub_fx(a.z as int, b.z as int) as i64,
    }
}

/// Negation.
pub open spec fn vneg(a: Vec3) -> Vec3 {
    Vec3 {
        x: sub_fx(0, a.x as int) as i64,
        y: sub_fx(0, a.y as int) as i64,
        z: sub_fx(0, a.z as int) as i64,
    }
}

/// Scaling by a scalar.
pub open spec fn vscale(a: Vec3, k: int) -> Vec3 {
    Vec3 {
        x: mul_fx(k, a.x as int) as i64,
        y: mul_fx(k, a.y as int) as i64,
        z: mul_fx(k, a.z as int) as i64,
    }
}

/// Component-wise product: how an attenuation color tints a carried color.
pub open spec fn vmul(a: Vec3, b: Vec3) -> Vec3 {
    Vec3 {
        x: mul_fx(a.x as int, b.x as int) as i64,
        y: mul_fx(a.y as int, b.y as int) as i64,
        z: mul_fx(a.z as int, b.z as int) as i64,
    }
}

/// Division by a positive scalar.
pub open spec fn vdiv(a: Vec3, k: int) -> Vec3
    recommends
        k > 0,
{
    Vec3 {
        x: div_fx(a.x as int, k) as i64,
        y: div_fx(a.y as int, k) as i64,
        z: div_fx(a.z as int, k) as i64,
    }
}

/// The exact (unscaled) sum of the component products, at scale
/// `SCALE * SCALE`.
pub open spec fn dot_wide(a: Vec3, b: Vec3) -> int {
    (a.x as int) * (b.x as int) + (a.y as int) * (b.y as int) + (a.z as int) * (b.z as int)
}

/// The dot product as a scalar: the exact sum of products, rescaled once.
pub open spec fn dot_spec(a: Vec3, b: Vec3) -> int {
    clip(tdiv(dot_wide(a, b), SCALE as int))
}

/// Squared length.
pub open spec fn length_sq_spec(v: Vec3) -> int {
    dot_spec(v, v)
}

/// Length: the fixed-point square root of the squared length.
pub open spec fn length_spec(v: Vec3) -> int {
    sqrt_fx(length_sq_spec(v))
}

/// A vector of length zero has no direction: normalizing it yields the zero
/// vector, by policy, so that normalization is total.
pub open spec fn unit_spec(v: Vec3) -> Vec3 {
    if length_spec(v) <= 0 {
        Vec3 { x: 0, y: 0, z: 0 }
    } else {
        vdiv(v, length_spec(v))
    }
}

/// Below the smallest representable magnitude in every component; at this
/// scale that means exactly zero.
pub open spec fn near_zero_spec(v: Vec3) -> bool {
    v.x == 0 && v.y == 0 && v.z == 0
}

/// A color whose channels all lie in `[0, 1]`.
pub open spec fn color_in_unit(c: Color) -> bool {
    0 <= c.x as int <= SCALE as int && 0 <= c.y as int <= SCALE as int && 0 <= c.z as int
        <= SCALE as int
}

/// Tinting a color in `[0, 1]` by an attenuation in `[0, 1]` stays in
/// `[0, 1]`.
pub proof fn lemma_vmul_unit(a: Color, b: Color)
    requires
        color_in_unit(a),
        color_in_unit(b),
    ensures
        color_in_unit(vmul(a, b)),
{
    crate::rtweekend::lemma_mul_fx_unit(a.x as int, b.x as int);
    crate::rtweekend::lemma_mul_fx_unit(a.y as int, b.y as int);
    crate::rtweekend::lemma_mul_fx_unit(a.z as int, b.z as int);
}

/// A squared length is never negative.
pub proof fn lemma_length_sq_nonneg(v: Vec3)
    ensures
        length_sq_spec(v) >= 0,
{
    assert(dot_wide(v, v) >= 0) by (nonlinear_arith);
}

impl Vec3 {
    /// Build a vector from raw scalars within the working range.
    pub fn new(x: i64, y: i64, z: i64) -> (r: Vec3)
        requires
            -CLIP_MAX <= x <= CLIP_MAX,
            -CLIP_MAX <= y <= CLIP_MAX,
            -CLIP_MAX <= z <= CLIP_MAX,
        ensures
            r == (Vec3 { x, y, z }),
            in_range(r),
    {
        Vec3 { x, y, z }
    }

    /// The zero vector; also black, as a color.
    pub fn zero() -> (r: Vec3)
        ensures
            r == (Vec3 { x: 0, y: 0, z: 0 }),
            in_range(r),
    {
        Vec3 { x: 0, y: 0, z: 0 }
    }

    /// Component-wise saturating sum.
    pub fn add(self, o: Vec3) -> (r: Vec3)
        ensures
            r == vadd(self, o),
            in_range(r),
    {
        Vec3 { x: fadd(self.x, o.x), y: fadd(self.y, o.y), z: fadd(self.z, o.z) }
    }

    /// Component-wise saturating difference.
    pub fn sub(self, o: Vec3) -> (r: Vec3)
        ensures
            r == vsub(self, o),
            in_range(r),
    {
        Vec3 { x: fsub(self.x, o.x), y: fsub(self.y, o.y), z: fsub(self.z, o.z) }
    }

    /// Negation.
    pub fn neg(self) -> (r: Vec3)
        ensures
            r == vneg(self),
            in_range(r),
    {
        Vec3 { x: fsub(0, self.x), y: fsub(0, self.y), z: fsub(0, self.z) }
    }

    /// Scaling by a scalar.
    pub fn scale(self, k: i64) -> (r: Vec3)
        ensures
            r == vscale(self, k as int),
            in_range(r),
    {
        Vec3 { x: fmul(k, self.x), y: fmul(k, self.y), z: fmul(k, self.z) }
    }

    /// Component-wise product.
    pub fn comp_mul(self, o: Vec3) -> (r: Vec3)
        ensures
            r == vmul(self, o),
            in_range(r),
    {
        Vec3 { x: fmul(self.x, o.x), y: fmul(self.y, o.y), z: fmul(self.z, o.z) }
    }

    /// Division by a positive scalar.
    pub fn div(self, k: i64) -> (r: Vec3)
        requires
            k > 0,
        ensures
            r == vdiv(self, k as int),
            in_range(r),
    {
        Vec3 { x: fdiv(self.x, k), y: fdiv(self.y, k), z: fdiv(self.z, k) }
    }

    /// Squared length.
    pub fn length_squared(self) -> (r: i64)
        requires
            in_range(self),
        ensures
            r as int == length_sq_spec(self),
            r >= 0,
    {
        proof {
            lemma_length_sq_nonneg(self);
        }
        dot(self, self)
    }

    /// Length.
    pub fn length(self) -> (r: i64)
        requires
            in_range(self),
        ensures
            r as int == length_spec(self),
            r >= 0,
    {
        let lsq = self.length_squared();
        fsqrt(lsq)
    }

    /// True when every component is below the smallest representable
    /// magnitude: used to turn a degenerate scatter direction into a
    /// well-defined one.
    pub fn near_zero(self) -> (r: bool)
        ensures
            r == near_zero_spec(self),
    {
        self.x == 0 && self.y == 0 && self.z == 0
    }
}

/// A value the in-sphere generator can return: a nonzero point strictly
/// inside the unit sphere, in range.
pub open spec fn is_sphere_draw(s: Vec3) -> bool {
    in_range(s) && 0 < length_sq_spec(s) < SCALE
}

/// A value the unit-direction generator can return: the normalization of
/// some point strictly inside the unit sphere with length at least one
/// half, itself within sixty-four raw units of exactly unit squared
/// length.
pub open spec fn is_unit_draw(u: Vec3) -> bool {
    &&& exists|p: Vec3|
        in_range(p) && 16384 <= length_sq_spec(p) < SCALE && u == #[trigger] unit_spec(p)
    &&& SCALE - 64 <= length_sq_spec(u) <= SCALE + 64
}

/// One uniformly drawn coordinate in `[-1, 1)`: the low seventeen bits of a
/// uniform draw, recentered. `131072` divides `2^32`, so the result is
/// exactly uniform over the `2^17` raw values.
fn random_coord() -> (r: i64)
    ensures
        -SCALE <= r < SCALE,
{
    let x = crate::rtweekend::rand_u32();
    let m: i64 = (x % 131072u32) as i64;
    m - SCALE
}

impl Vec3 {
    /// A uniformly drawn point strictly inside the unit sphere: rejection
    /// sampling over the cube `[-1,1)^3`, with a fixed retry budget and a
    /// deterministic interior fallback so that the function provably
    /// returns. Points shorter than one half are rejected too: below that
    /// floor the fixed-point normalization downstream loses accuracy.
    pub fn random_in_unit_sphere() -> (r: Vec3)
        ensures
            in_range(r),
            16384 <= length_sq_spec(r) < SCALE,
            is_sphere_draw(r),
            -SCALE <= r.x < SCALE,
            -SCALE <= r.y < SCALE,
            -SCALE <= r.z < SCALE,
    {
        let mut tries: u32 = 64;
        while tries > 0
            decreases tries,
        {
            let p = Vec3 { x: random_coord(), y: random_coord(), z: random_coord() };
            let lsq = p.length_squared();
            if 16384 <= lsq && lsq < SCALE {
                return p;
            }
            tries = tries - 1;
        }
        let q = Vec3 { x: 32768, y: 0, z: 0 };
        assert(length_sq_spec(q) == 16384);
        q
    }

    /// A random direction of (approximately) unit length: the normalization
    /// of a drawn in-sphere point, guaranteed within sixty-four raw units of
    /// exactly unit squared length. A draw whose normalization leaves that
    /// band — which the sampler's length floor makes vanishingly rare — is
    /// redrawn; after the budget, an exact axis unit vector stands in.
    pub fn random_unit_vector() -> (r: Vec3)
        ensures
            in_range(r),
            is_unit_draw(r),
    {
        let mut tries: u32 = 64;
        while tries > 0
            decreases tries,
        {
            let p = Vec3::random_in_unit_sphere();
            let u = unit_vector(p);
            let lu = u.length_squared();
            if SCALE - 64 <= lu && lu <= SCALE + 64 {
                proof {
                    assert(in_range(p) && 16384 <= length_sq_spec(p) < SCALE && u == unit_spec(p));
                }
                return u;
            }
            tries = tries - 1;
        }
        let q = Vec3 { x: 32768, y: 0, z: 0 };
        proof {
            assert(length_sq_spec(q) == 16384);
            crate::rtweekend::lemma_sqrt_fx_is_isqrt(16384, 32768);
            assert(length_spec(q) == 32768);
            crate::rtweekend::lemma_tdiv_multiples_vanish(SCALE as int, 32768);
            assert(32768 * (SCALE as int) == (SCALE as int) * 32768) by (nonlinear_arith);
            assert(unit_spec(q) == (Vec3 { x: SCALE, y: 0, z: 0 }));
        }
        let u = unit_vector(q);
        proof {
            crate::rtweekend::lemma_tdiv_multiples_vanish(SCALE as int, SCALE as int);
            assert(length_sq_spec(u) == SCALE);
            assert(in_range(q) && 16384 <= length_sq_spec(q) < SCALE && u == unit_spec(q));
        }
        u
    }
}

/// Dot product.
pub fn dot(a: Vec3, b: Vec3) -> (r: i64)
    requires
        in_range(a),
        in_range(b),
    ensures
        r as int == dot_spec(a, b),
{
    proof {
        assert(-0x1000_0000_0000_0000_0000_0000_0000_0000int <= (a.x as int) * (b.x as int)
            <= 0x1000_0000_0000_0000_0000_0000_0000_0000int
            && -0x1000_0000_0000_0000_0000_0000_0000_0000int <= (a.y as int) * (b.y as int)
            <= 0x1000_0000_0000_0000_0000_0000_0000_0000int
            && -0x1000_0000_0000_0000_0000_0000_0000_0000int <= (a.z as int) * (b.z as int)
            <= 0x1000_0000_0000_0000_0000_0000_0000_0000int) by (nonlinear_arith)
            requires
                in_range(a),
                in_range(b),
        ;
    }
    let px: i128 = (a.x as i128) * (b.x as i128);
    let py: i128 = (a.y as i128) * (b.y as i128);
    let pz: i128 = (a.z as i128) * (b.z as i128);
    let w: i128 = px + py + pz;
    crate::rtweekend::clip_i128(crate::rtweekend::tdiv_i128(w, SCALE as i128))
}

/// Negating one argument negates the dot product exactly: truncation toward
/// zero and the symmetric saturation bound are both odd functions.
pub proof fn lemma_dot_neg(a: Vec3, b: Vec3)
    requires
        in_range(b),
    ensures
        dot_spec(a, vneg(b)) == -dot_spec(a, b),
{
    let w = dot_wide(a, b);
    assert((a.x as int) * (-(b.x as int)) == -((a.x as int) * (b.x as int))) by (nonlinear_arith);
    assert((a.y as int) * (-(b.y as int)) == -((a.y as int) * (b.y as int))) by (nonlinear_arith);
    assert((a.z as int) * (-(b.z as int)) == -((a.z as int) * (b.z as int))) by (nonlinear_arith);
    assert(dot_wide(a, vneg(b)) == -w);
    assert(tdiv(-w, SCALE as int) == -tdiv(w, SCALE as int));
}

/// Mirror reflection about a normal: `v - 2*dot(v,n)*n`, each scalar step
/// rounded once.
pub open spec fn reflect_spec(v: Vec3, n: Vec3) -> Vec3 {
    vsub(v, vscale(n, add_fx(dot_spec(v, n), dot_spec(v, n))))
}

/// The ideal reflection, before any rounding: the exact integer numerator of
/// `v - 2*dot(v,n)*n`, at scale `SCALE2` relative to `v`.
pub open spec fn reflect_wide(v: Vec3, n: Vec3) -> (int, int, int) {
    (
        (SCALE2 as int) * (v.x as int) - 2 * dot_wide(v, n) * (n.x as int),
        (SCALE2 as int) * (v.y as int) - 2 * dot_wide(v, n) * (n.y as int),
        (SCALE2 as int) * (v.z as int) - 2 * dot_wide(v, n) * (n.z as int),
    )
}

/// The exact sum of products of an integer triple against a vector.
pub open spec fn dot3_wide(t: (int, int, int), n: Vec3) -> int {
    t.0 * (n.x as int) + t.1 * (n.y as int) + t.2 * (n.z as int)
}

/// Reflection reverses the component along the normal: for every vector `v`
/// and every exactly-unit normal `n`, the ideal reflected vector satisfies
/// `dot(reflect(v, n), n) == -dot(v, n)` (both sides at matching scale).
pub proof fn lemma_reflect_opposes_normal(v: Vec3, n: Vec3)
    requires
        dot_wide(n, n) == SCALE2 as int,
    ensures
        dot3_wide(reflect_wide(v, n), n) == -(SCALE2 as int) * dot_wide(v, n),
{
    lemma_reflect_ring(
        v.x as int,
        v.y as int,
        v.z as int,
        n.x as int,
        n.y as int,
        n.z as int,
        SCALE2 as int,
        dot_wide(v, n),
    );
}

/// One component of the expansion: `(s2*vi - 2*d*ni)*ni`.
proof fn lemma_expand_term(s2: int, d: int, vi: int, ni: int)
    by (nonlinear_arith)
    ensures
        (s2 * vi - 2 * d * ni) * ni == s2 * (vi * ni) - 2 * (d * (ni * ni)),
{
}

/// Distributing a factor over a three-part sum.
proof fn lemma_distrib3(k: int, a: int, b: int, c: int)
    by (nonlinear_arith)
    ensures
        k * (a + b + c) == k * a + k * b + k * c,
{
}

/// The polynomial identity behind `lemma_reflect_opposes_normal`.
proof fn lemma_reflect_ring(vx: int, vy: int, vz: int, nx: int, ny: int, nz: int, s2: int, d: int)
    requires
        d == vx * nx + vy * ny + vz * nz,
        nx * nx + ny * ny + nz * nz == s2,
    ensures
        (s2 * vx - 2 * d * nx) * nx + (s2 * vy - 2 * d * ny) * ny + (s2 * vz - 2 * d * nz) * nz
            == -s2 * d,
{
    lemma_expand_term(s2, d, vx, nx);
    lemma_expand_term(s2, d, vy, ny);
    lemma_expand_term(s2, d, vz, nz);
    lemma_distrib3(s2, vx * nx, vy * ny, vz * nz);
    lemma_distrib3(d, nx * nx, ny * ny, nz * nz);
    assert(d * s2 == s2 * d) by (nonlinear_arith);
    assert(-s2 * d == -(s2 * d)) by (nonlinear_arith);
}

/// One component of `lemma_reflect_error`: with `d` the rounded dot product
/// of the reflection (`w` its exact value) and `ni`, `vi` the component
/// inputs, the rounded component `sub_fx(vi, mul_fx(2d, ni))` stays within
/// six raw units of the ideal numerator `vi*SCALE2 - 2*w*ni`.
proof fn lemma_reflect_component(vi: int, ni: int, w: int, d: int)
    requires
        -131072 <= ni <= 131072,
        -65536 < w - 65536 * d < 65536,
        -0x2000_0000_0000 <= vi <= 0x2000_0000_0000,
        -0xC000_0000_0001 <= d <= 0xC000_0000_0001,
    ensures
        -6 * (SCALE2 as int) < (SCALE2 as int) * sub_fx(vi, mul_fx(2 * d, ni)) - ((SCALE2 as int)
            * vi - 2 * w * ni) < 6 * (SCALE2 as int),
{
    let s: int = 65536;
    let s2: int = 65536int * 65536;
    let e1 = w - s * d;
    assert(-0x3_0000_0000_0004_0000 <= 2 * d * ni <= 0x3_0000_0000_0004_0000) by (nonlinear_arith)
        requires
            -131072 <= ni <= 131072,
            -0xC000_0000_0001 <= d <= 0xC000_0000_0001,
    ;
    crate::rtweekend::lemma_tdiv_rem(2 * d * ni, s);
    let m = crate::rtweekend::tdiv(2 * d * ni, s);
    let e2 = 2 * d * ni - s * m;
    assert(mul_fx(2 * d, ni) == m);
    assert(s * (2 * d * ni) == 2 * (s * d) * ni) by (nonlinear_arith);
    assert(2 * (s * d) * ni == 2 * w * ni - 2 * e1 * ni) by (nonlinear_arith)
        requires
            s * d == w - e1,
            s == 65536,
    ;
    assert(-4 * s2 <= 2 * e1 * ni <= 4 * s2) by (nonlinear_arith)
        requires
            -65536 <= e1 <= 65536,
            -131072 <= ni <= 131072,
            s2 == 65536 * 65536,
    ;
    assert(sub_fx(vi, m) == vi - m);
    assert(s2 * (vi - m) == s2 * vi - s * (s * m)) by (nonlinear_arith)
        requires
            s2 == s * s,
    ;
    assert(s * (s * m) == s * (2 * d * ni) - s * e2) by (nonlinear_arith)
        requires
            s * m == 2 * d * ni - e2,
    ;
}

/// The executable reflection tracks the ideal one: for a vector and a
/// near-unit normal of ordinary scene magnitude, each component of
/// `reflect_spec` lands within six raw units of the ideal numerator
/// `reflect_wide` (which sits at scale `SCALE2` relative to it).
pub proof fn lemma_reflect_error(v: Vec3, n: Vec3)
    requires
        -0x2000_0000_0000 <= v.x as int <= 0x2000_0000_0000,
        -0x2000_0000_0000 <= v.y as int <= 0x2000_0000_0000,
        -0x2000_0000_0000 <= v.z as int <= 0x2000_0000_0000,
        -131072 <= n.x as int <= 131072,
        -131072 <= n.y as int <= 131072,
        -131072 <= n.z as int <= 131072,
    ensures
        -6 * (SCALE2 as int) < (SCALE2 as int) * (reflect_spec(v, n).x as int) - reflect_wide(
            v,
            n,
        ).0 < 6 * (SCALE2 as int),
        -6 * (SCALE2 as int) < (SCALE2 as int) * (reflect_spec(v, n).y as int) - reflect_wide(
            v,
            n,
        ).1 < 6 * (SCALE2 as int),
        -6 * (SCALE2 as int) < (SCALE2 as int) * (reflect_spec(v, n).z as int) - reflect_wide(
            v,
            n,
        ).2 < 6 * (SCALE2 as int),
{
    let s: int = 65536;
    let w = dot_wide(v, n);
    assert(-0x4000_0000_0000_0000 <= (v.x as int) * (n.x as int) <= 0x4000_0000_0000_0000
        && -0x4000_0000_0000_0000 <= (v.y as int) * (n.y as int) <= 0x4000_0000_0000_0000
        && -0x4000_0000_0000_0000 <= (v.z as int) * (n.z as int) <= 0x4000_0000_0000_0000)
        by (nonlinear_arith)
        requires
            -0x2000_0000_0000 <= v.x as int <= 0x2000_0000_0000,
            -0x2000_0000_0000 <= v.y as int <= 0x2000_0000_0000,
            -0x2000_0000_0000 <= v.z as int <= 0x2000_0000_0000,
            -131072 <= n.x as int <= 131072,
            -131072 <= n.y as int <= 131072,
            -131072 <= n.z as int <= 131072,
    ;
    crate::rtweekend::lemma_tdiv_rem(w, s);
    let d = crate::rtweekend::tdiv(w, s);
    assert(dot_spec(v, n) == d);
    assert(add_fx(d, d) == 2 * d);
    lemma_reflect_component(v.x as int, n.x as int, w, d);
    lemma_reflect_component(v.y as int, n.y as int, w, d);
    lemma_reflect_component(v.z as int, n.z as int, w, d);
}

/// Reflect `v` about the normal `n`.
pub fn reflect(v: Vec3, n: Vec3) -> (r: Vec3)
    requires
        in_range(v),
        in_range(n),
    ensures
        r == reflect_spec(v, n),
        in_range(r),
{
    let d = dot(v, n);
    let k = fadd(d, d);
    v.sub(n.scale(k))
}

/// Snell refraction of the unit direction `uv` at a surface with unit normal
/// `n`, for a ratio of refractive indices `ratio`: the perpendicular
/// component `ratio*(uv + cos*n)` plus the parallel component
/// `-sqrt(1 - |perp|^2)*n`. When `|perp|^2` exceeds one (total internal
/// reflection, which the scattering model does not branch on), the parallel
/// component is zero, keeping the formula total.
pub open spec fn refract_spec(uv: Vec3, n: Vec3, ratio: int) -> Vec3 {
    let c = dot_spec(vneg(uv), n);
    let cos = if c < SCALE as int {
        c
    } else {
        SCALE as int
    };
    let perp = vscale(vadd(uv, vscale(n, cos)), ratio);
    let k = sub_fx(SCALE as int, length_sq_spec(perp));
    let kpos = if k < 0 {
        0
    } else {
        k
    };
    vadd(perp, vscale(n, sub_fx(0, sqrt_fx(kpos))))
}

/// Refract `uv` about `n` with the given ratio of refractive indices.
pub fn refract(uv: Vec3, n: Vec3, ratio: i64) -> (r: Vec3)
    requires
        in_range(uv),
        in_range(n),
    ensures
        r == refract_spec(uv, n, ratio as int),
        in_range(r),
{
    let c = dot(uv.neg(), n);
    let cos = if c < SCALE {
        c
    } else {
        SCALE
    };
    let perp = uv.add(n.scale(cos)).scale(ratio);
    let k = fsub(SCALE, perp.length_squared());
    let kpos = if k < 0 {
        0
    } else {
        k
    };
    perp.add(n.scale(fsub(0, fsqrt(kpos))))
}

/// Normalize to (approximately) unit length; the zero vector stays zero.
pub fn unit_vector(v: Vec3) -> (r: Vec3)
    requires
        in_range(v),
    ensures
        r == unit_spec(v),
        in_range(r),
{
    let len = v.length();
    if len <= 0 {
        Vec3::zero()
    } else {
        v.div(len)
    }
}

} // verus!
