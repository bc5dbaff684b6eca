//! Material scattering models: diffuse, reflective with fuzz, and
//! refractive. A material decides whether an incoming ray continues and, if
//! so, with what attenuation color and along what new ray.

use vstd::prelude::*;

use crate::hittable::HitRecord;
use crate::ray::{ray_in_range, Ray};
use crate::rtweekend::{div_fx, fdiv, SCALE};
use crate::vec3::{
    color_in_unit, dot, dot_spec, in_range, is_sphere_draw, is_unit_draw, near_zero_spec, reflect,
    reflect_spec, refract, refract_spec, unit_spec, unit_vector, vadd, vscale, Color, Vec3,
};

verus! {

/// A diffuse surface with the given reflectance color.
#[derive(Clone, Copy, PartialEq, Eq, Structural, Debug)]
pub struct Lambertian {
    pub albedo: Color,
}

/// A specular surface: reflectance color and a perturbation magnitude in
/// `[0, 1]` (zero is a perfect mirror).
#[derive(Clone, Copy, PartialEq, Eq, Structural, Debug)]
pub struct Metal {
    pub albedo: Color,
    pub fuzz: i64,
}

/// A clear refractive surface with the given refractive index.
#[derive(Clone, Copy, PartialEq, Eq, Structural, Debug)]
pub struct Dielectric {
    pub ir: i64,
}

/// The closed set of material kinds a surface can carry.
#[derive(Clone, Copy, PartialEq, Eq, Structural, Debug)]
pub enum Material {
    Lambertian(Lambertian),
    Metal(Metal),
    Dielectric(Dielectric),
}

/// What scattering needs of a material: a dielectric's refractive index is
/// positive. Constructors establish it.
pub open spec fn mat_wf(m: Material) -> bool {
    m matches Material::Dielectric(d) ==> d.ir > 0
}

/// The material's attenuation lies in `[0, 1]` per channel: the reflective
/// kinds retain at most all the light, and a dielectric attenuates by pure
/// white always.
pub open spec fn albedo_ok(m: Material) -> bool {
    match m {
        Material::Lambertian(l) => color_in_unit(l.albedo),
        Material::Metal(mt) => color_in_unit(mt.albedo),
        Material::Dielectric(_) => true,
    }
}

/// The ratio of refractive indices a dielectric uses: the reciprocal of the
/// index when the ray enters from outside, the index itself when it exits.
pub open spec fn dielectric_ratio(ir: int, front_face: bool) -> int {
    if front_face {
        div_fx(SCALE as int, ir)
    } else {
        ir
    }
}

/// The diffuse scatter direction for a drawn unit vector `u`: the sum
/// `normal + u`, or the normal alone when that sum degenerates to zero.
pub open spec fn scatter_dir(normal: Vec3, u: Vec3) -> Vec3 {
    if near_zero_spec(vadd(normal, u)) {
        normal
    } else {
        vadd(normal, u)
    }
}

/// The specular scatter direction for a drawn in-sphere point `s`: the
/// reflection of the unit incoming direction about the normal, perturbed by
/// `fuzz * s`.
pub open spec fn metal_perturbed_dir(m: Metal, r_in: Ray, rec: HitRecord, s: Vec3) -> Vec3 {
    vadd(reflect_spec(unit_spec(r_in.direction), rec.normal), vscale(s, m.fuzz as int))
}

/// What every successful scatter outcome satisfies: the new ray starts at
/// the hit point, stays in range, and carries the variant's attenuation and
/// a direction that some admissible random draw produces.
pub open spec fn scatter_some_ok(m: Material, r_in: Ray, rec: HitRecord, att: Color, sc: Ray) -> bool {
    &&& sc.origin == rec.p
    &&& ray_in_range(sc)
    &&& match m {
        Material::Lambertian(l) => att == l.albedo && (exists|u: Vec3|
            #[trigger] is_unit_draw(u) && sc.direction == scatter_dir(rec.normal, u)),
        Material::Metal(mt) => {
            &&& att == mt.albedo
            &&& dot_spec(sc.direction, rec.normal) > 0
            &&& exists|s: Vec3|
                #[trigger] is_sphere_draw(s) && sc.direction == metal_perturbed_dir(
                    mt,
                    r_in,
                    rec,
                    s,
                )
        },
        Material::Dielectric(d) => att == (Vec3 { x: SCALE, y: SCALE, z: SCALE }) && sc.direction
            == refract_spec(
            unit_spec(r_in.direction),
            rec.normal,
            dielectric_ratio(d.ir as int, rec.front_face),
        ),
    }
}

/// What an absorbed ray requires: only a specular surface absorbs, and only
/// when some admissible draw perturbs the reflection into or along the
/// surface.
pub open spec fn scatter_none_ok(m: Material, r_in: Ray, rec: HitRecord) -> bool {
    match m {
        Material::Metal(mt) => exists|s: Vec3|
            #[trigger] is_sphere_draw(s) && dot_spec(
                metal_perturbed_dir(mt, r_in, rec, s),
                rec.normal,
            ) <= 0,
        _ => false,
    }
}

impl Lambertian {
    /// A diffuse material with the given albedo.
    pub fn new(albedo: Color) -> (r: Self)
        ensures
            r.albedo == albedo,
    {
        Lambertian { albedo }
    }

    /// Diffuse scattering: a new ray from the hit point along
    /// `normal + random_unit_vector()`, or along the normal alone when that
    /// sum degenerates to zero. Never absorbs, and never yields the zero
    /// direction unless the normal itself is zero.
    pub fn scatter(&self, r_in: &Ray, rec: &HitRecord) -> (res: Option<(Color, Ray)>)
        requires
            in_range(rec.p),
            in_range(rec.normal),
        ensures
            res matches Some(ar) && ar.0 == self.albedo && ar.1.origin == rec.p && ray_in_range(
                ar.1,
            ),
            res matches Some(ar) ==> exists|u: Vec3|
                #[trigger] is_unit_draw(u) && ar.1.direction == scatter_dir(rec.normal, u),
            !near_zero_spec(rec.normal) ==> (res matches Some(ar) ==> !near_zero_spec(
                ar.1.direction,
            )),
    {
        let _r = r_in;
        let u = Vec3::random_unit_vector();
        let sum = rec.normal.add(u);
        let scatter_direction = if sum.near_zero() {
            rec.normal
        } else {
            sum
        };
        proof {
            assert(scatter_direction == scatter_dir(rec.normal, u));
        }
        let scattered = Ray::new(rec.p, scatter_direction);
        let attenuation = self.albedo;
        Some((attenuation, scattered))
    }
}

impl Metal {
    /// A specular material; a perturbation magnitude of one or more is
    /// clamped to one, as existing scenes rely on.
    pub fn new(albedo: Color, f: i64) -> (r: Self)
        ensures
            r.albedo == albedo,
            r.fuzz as int == if f < SCALE {
                f as int
            } else {
                SCALE as int
            },
    {
        let fuzz = if f < SCALE {
            f
        } else {
            SCALE
        };
        Metal { albedo, fuzz }
    }

    /// Specular scattering: reflect the unit incoming direction about the
    /// normal, perturb by `fuzz * random_in_unit_sphere()`, and absorb
    /// exactly when the perturbed direction does not point away from the
    /// surface — stated for the drawn point itself, whichever it was. With
    /// zero fuzz the outcome is deterministic.
    pub fn scatter(&self, r_in: &Ray, rec: &HitRecord) -> (res: Option<(Color, Ray)>)
        requires
            in_range(rec.p),
            in_range(rec.normal),
            in_range(r_in.direction),
        ensures
            res matches Some(ar) ==> (ar.0 == self.albedo && ar.1.origin == rec.p && dot_spec(
                ar.1.direction,
                rec.normal,
            ) > 0 && ray_in_range(ar.1)),
            exists|s: Vec3|
                #[trigger] is_sphere_draw(s) && (res is Some <==> dot_spec(
                    metal_perturbed_dir(*self, *r_in, *rec, s),
                    rec.normal,
                ) > 0) && (res matches Some(ar) ==> ar.1.direction == metal_perturbed_dir(
                    *self,
                    *r_in,
                    *rec,
                    s,
                )),
            self.fuzz == 0 ==> {
                let refl = reflect_spec(unit_spec(r_in.direction), rec.normal);
                &&& (res is Some <==> dot_spec(refl, rec.normal) > 0)
                &&& (res matches Some(ar) ==> ar.1.direction == refl)
            },
    {
        let reflected = reflect(unit_vector(r_in.direction), rec.normal);
        let s = Vec3::random_in_unit_sphere();
        let perturbed = reflected.add(s.scale(self.fuzz));
        proof {
            assert(perturbed == metal_perturbed_dir(*self, *r_in, *rec, s));
        }
        let scattered = Ray::new(rec.p, perturbed);
        let attenuation = self.albedo;
        if dot(scattered.direction, rec.normal) > 0 {
            Some((attenuation, scattered))
        } else {
            None
        }
    }
}

impl Dielectric {
    /// A refractive material. A nonpositive index has no physical meaning;
    /// rather than silently accept one, construction demands a positive
    /// index.
    pub fn new(index_of_refraction: i64) -> (r: Self)
        requires
            index_of_refraction > 0,
        ensures
            r.ir == index_of_refraction,
    {
        Dielectric { ir: index_of_refraction }
    }

    /// Refractive scattering: always continues (attenuation is pure white),
    /// bending the unit incoming direction by Snell's law with the ratio
    /// chosen by which side the ray hit.
    pub fn scatter(&self, r_in: &Ray, rec: &HitRecord) -> (res: Option<(Color, Ray)>)
        requires
            in_range(rec.p),
            in_range(rec.normal),
            in_range(r_in.direction),
            self.ir > 0,
        ensures
            res matches Some(ar) && ar.0 == (Vec3 { x: SCALE, y: SCALE, z: SCALE })
                && ar.1.origin == rec.p && ar.1.direction == refract_spec(
                unit_spec(r_in.direction),
                rec.normal,
                dielectric_ratio(self.ir as int, rec.front_face),
            ) && ray_in_range(ar.1),
    {
        let attenuation = Color::new(SCALE, SCALE, SCALE);
        let refraction_ratio = if rec.front_face {
            fdiv(SCALE, self.ir)
        } else {
            self.ir
        };
        let unit_direction = unit_vector(r_in.direction);
        let refracted = refract(unit_direction, rec.normal, refraction_ratio);
        let scattered = Ray::new(rec.p, refracted);
        Some((attenuation, scattered))
    }
}

impl Material {
    /// Dispatch to the kind's scattering model. A returned ray starts at
    /// the hit point, stays in range, and satisfies the kind's outcome
    /// predicate for whichever point the random source drew; absorption
    /// happens only where the kind's absorption predicate allows it, and
    /// the deterministic kinds are pinned exactly.
    pub fn scatter(&self, r_in: &Ray, rec: &HitRecord) -> (res: Option<(Color, Ray)>)
        requires
            in_range(rec.p),
            in_range(rec.normal),
            in_range(r_in.direction),
            mat_wf(*self),
        ensures
            res matches Some(ar) ==> (ar.1.origin == rec.p && ray_in_range(ar.1)),
            res matches Some(ar) ==> scatter_some_ok(*self, *r_in, *rec, ar.0, ar.1),
            res is None ==> scatter_none_ok(*self, *r_in, *rec),
            self matches Material::Lambertian(l) ==> (res matches Some(ar) && ar.0 == l.albedo),
            self matches Material::Metal(m) ==> (res matches Some(ar) ==> (ar.0 == m.albedo
                && dot_spec(ar.1.direction, rec.normal) > 0)),
            self matches Material::Metal(m) ==> (m.fuzz == 0 ==> {
                let refl = reflect_spec(unit_spec(r_in.direction), rec.normal);
                &&& (res is Some <==> dot_spec(refl, rec.normal) > 0)
                &&& (res matches Some(ar) ==> ar.1.direction == refl)
            }),
            self matches Material::Dielectric(d) ==> (res matches Some(ar) && ar.0 == (Vec3 {
                x: SCALE,
                y: SCALE,
                z: SCALE,
            }) && ar.1.direction == refract_spec(
                unit_spec(r_in.direction),
                rec.normal,
                dielectric_ratio(d.ir as int, rec.front_face),
            )),
    {
        match self {
            Material::Lambertian(l) => l.scatter(r_in, rec),
            Material::Metal(m) => m.scatter(r_in, rec),
            Material::Dielectric(d) => d.scatter(r_in, rec),
        }
    }
}

} // verus!
