//! A small path-tracing kernel over spheres, written against a fixed-point
//! scalar type so that every geometric and radiometric computation is exact
//! and fully specified.
//!
//! Scalars are `i64` values carrying a fixed binary scale: a raw value `x`
//! stands for the real number `x / SCALE`. All arithmetic is saturating at
//! `CLIP_MAX` (far beyond any quantity a scene produces), which keeps every
//! operation total and its result exactly characterized.

use vstd::prelude::*;

pub mod camera;
pub mod color;
pub mod hittable;
pub mod material;
pub mod ray;
pub mod rtweekend;
pub mod vec3;

use crate::hittable::HitTable;
use crate::material::{albedo_ok, scatter_none_ok, scatter_some_ok, Material};
use crate::ray::{ray_in_range, Ray};
use crate::rtweekend::{
    add_fx, clamp, clamp_spec, fadd, fmul, fsub, lemma_mul_fx_unit, mul_fx, sub_fx, CLIP_MAX,
    SCALE,
};
use crate::vec3::{
    color_in_unit, in_range, lemma_vmul_unit, unit_spec, unit_vector, vadd, vmul, vscale, Color,
    Vec3,
};

verus! {

/// Shadow-acne epsilon: the least parameter at which a ray may register a
/// hit, about a thousandth of a unit, so that a bounced ray cannot
/// re-intersect its own origin surface.
pub const T_MIN_FX: i64 = 66;

/// The scene's only light: a vertical gradient from white at the horizon
/// (`t = 0`) to sky blue overhead (`t = 1`), with
/// `t = (unit_direction.y + 1) / 2` clamped into `[0, 1]` — fixed-point
/// normalization can overshoot unit length on very short directions, and
/// the clamp keeps the gradient between its endpoints.
pub open spec fn sky_color_spec(r: Ray) -> Color {
    let unit_direction = unit_spec(r.direction);
    let t = clamp_spec(
        mul_fx(32768, add_fx(unit_direction.y as int, SCALE as int)),
        0,
        SCALE as int,
    );
    vadd(
        vscale(Vec3 { x: SCALE, y: SCALE, z: SCALE }, sub_fx(SCALE as int, t)),
        vscale(Vec3 { x: 32768, y: 45875, z: SCALE }, t),
    )
}

/// One channel of the sky gradient: a lerp between endpoints in `[0, 1]`
/// with a parameter in `[0, 1]` stays in `[0, 1]`.
proof fn lemma_lerp_unit(t: int, e0: int, e1: int)
    requires
        0 <= t <= SCALE as int,
        0 <= e0 <= SCALE as int,
        0 <= e1 <= SCALE as int,
    ensures
        0 <= add_fx(mul_fx(sub_fx(SCALE as int, t), e0), mul_fx(t, e1)) <= SCALE as int,
{
    lemma_mul_fx_unit(sub_fx(SCALE as int, t), e0);
    lemma_mul_fx_unit(t, e1);
}

/// The sky gradient is a color in `[0, 1]` for every ray.
pub proof fn lemma_sky_in_unit(r: Ray)
    ensures
        color_in_unit(sky_color_spec(r)),
{
    let unit_direction = unit_spec(r.direction);
    let t = clamp_spec(
        mul_fx(32768, add_fx(unit_direction.y as int, SCALE as int)),
        0,
        SCALE as int,
    );
    lemma_lerp_unit(t, SCALE as int, 32768);
    lemma_lerp_unit(t, SCALE as int, 45875);
    lemma_lerp_unit(t, SCALE as int, SCALE as int);
}

/// The compositing law of the integrator, by recursion on the bounce
/// budget: a color the estimate may return for this ray. With no budget it
/// is black; on a miss it is exactly the sky; on a hit it is either black
/// after an admissible absorption, or the attenuation of an admissible
/// scatter outcome times a color admissible for the scattered ray with one
/// bounce less.
pub open spec fn color_admissible<H: HitTable>(world: &H, r: Ray, depth: int, color: Color) -> bool
    decreases depth,
{
    if depth <= 0 {
        color == (Vec3 { x: 0, y: 0, z: 0 })
    } else {
        match world.hit_model(r, T_MIN_FX as int, CLIP_MAX as int) {
            Option::None => color == sky_color_spec(r),
            Option::Some(rec) => {
                ||| (scatter_none_ok(rec.material, r, rec) && color == (Vec3 { x: 0, y: 0, z: 0 }))
                ||| (exists|att: Color, sc: Ray|
                    #[trigger] scatter_some_ok(rec.material, r, rec, att, sc) && (exists|
                        rest: Color,
                    |
                        color_admissible(world, sc, depth - 1, rest) && color == #[trigger] vmul(
                            att,
                            rest,
                        )))
            },
        }
    }
}

/// The recursive radiance estimate for one ray: black once the bounce
/// budget is exhausted; otherwise the nearest hit's material decides whether
/// the path continues (its attenuation tinting the recursive estimate) or is
/// absorbed (black); a ray that hits nothing sees the sky gradient.
pub fn ray_color<H: HitTable>(r: &Ray, world: &H, depth: u32) -> (color: Color)
    requires
        ray_in_range(*r),
        world.hit_wf(),
    ensures
        in_range(color),
        depth == 0 ==> color == (Vec3 { x: 0, y: 0, z: 0 }),
        depth > 0 && world.hit_model(*r, T_MIN_FX as int, CLIP_MAX as int) is None ==> color
            == sky_color_spec(*r),
        depth == 1 && world.hit_model(*r, T_MIN_FX as int, CLIP_MAX as int) is Some ==> color == (
        Vec3 { x: 0, y: 0, z: 0 }),
        color_admissible(world, *r, depth as int, color),
        world.materials_in_unit() ==> color_in_unit(color),
    decreases depth,
{
    if depth == 0 {
        return Vec3::zero();
    }

    if let Some(rec) = world.hit(r, T_MIN_FX, CLIP_MAX) {
        if let Some((attenuation, scattered)) = rec.material.scatter(r, &rec) {
            let rest = ray_color(&scattered, world, depth - 1);
            let composed = attenuation.comp_mul(rest);
            proof {
                assert(scatter_some_ok(rec.material, *r, rec, attenuation, scattered));
                assert(composed == vmul(attenuation, rest));
                if world.materials_in_unit() {
                    assert(albedo_ok(rec.material));
                    assert(rec.material matches Material::Dielectric(d) ==> attenuation == (Vec3 {
                        x: SCALE,
                        y: SCALE,
                        z: SCALE,
                    }));
                    assert(color_in_unit(attenuation));
                    lemma_vmul_unit(attenuation, rest);
                }
            }
            return composed;
        }
        return Vec3::zero();
    }

    let unit_direction = unit_vector(r.direction);
    let t = clamp(fmul(32768, fadd(unit_direction.y, SCALE)), 0, SCALE);
    let white = Vec3::new(SCALE, SCALE, SCALE);
    let blue = Vec3::new(32768, 45875, SCALE);
    white.scale(fsub(SCALE, t)).add(blue.scale(t))
}

} // verus!
