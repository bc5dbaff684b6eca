//! The intersection engine: ray/sphere hit testing and the scene list that
//! reports the nearest hit.

use vstd::prelude::*;

use crate::material::{albedo_ok, mat_wf, Material};
use crate::ray::{ray_in_range, Ray};
use crate::rtweekend::{
    add_fx, div_fx, fadd, fdiv, fmul, fsqrt, fsub, lemma_sqrt_fx_bounds, lemma_tdiv_monotonic,
    lemma_tdiv_multiples_vanish, lemma_tdiv_rem, mul_fx, sqrt_fx, sub_fx, tdiv, SCALE,
};
use crate::vec3::{dot, dot_spec, in_range, vdiv, vneg, vsub, Point3, Vec3};

verus! {

/// Everything known about one successful intersection: the hit point, the
/// unit-length normal oriented against the incoming ray, the ray parameter,
/// which side was struck, and the material responsible for the surface.
#[derive(Clone, Copy, PartialEq, Eq, Structural, Debug)]
pub struct HitRecord {
    pub p: Point3,
    pub normal: Vec3,
    pub material: Material,
    pub t: i64,
    pub front_face: bool,
}

impl HitRecord {
    /// A record for the given point, parameter and material, with the normal
    /// and orientation left at their placeholders until `set_face_normal`.
    pub fn new(p: Point3, t: i64, material: Material) -> (r: Self)
        ensures
            r == (HitRecord {
                p,
                normal: Vec3 { x: 0, y: 0, z: 0 },
                material,
                t,
                front_face: false,
            }),
    {
        let normal = Vec3::zero();
        Self { p, normal, material, t, front_face: false }
    }

    /// Orient the outward normal against the incoming ray: the stored normal
    /// is the outward normal when the ray arrives from outside, and its
    /// negation otherwise.
    pub fn set_face_normal(&self, r: &Ray, outward_normal: &Vec3) -> (h: Self)
        requires
            in_range(r.direction),
            in_range(*outward_normal),
        ensures
            h.p == self.p,
            h.t == self.t,
            h.material == self.material,
            h.front_face == (dot_spec(r.direction, *outward_normal) < 0),
            h.normal == if dot_spec(r.direction, *outward_normal) < 0 {
                *outward_normal
            } else {
                vneg(*outward_normal)
            },
            in_range(h.normal),
    {
        let p = self.p;
        let front_face = dot(r.direction, *outward_normal) < 0;
        let normal = if front_face {
            *outward_normal
        } else {
            outward_normal.neg()
        };
        let material = self.material;
        let t = self.t;

        Self { p, normal, material, t, front_face }
    }
}

/// A sphere: center, positive radius, and the material of its surface.
#[derive(Clone, Copy, PartialEq, Eq, Structural, Debug)]
pub struct Sphere {
    pub center: Point3,
    pub radius: i64,
    pub material: Material,
}

impl Sphere {
    /// What the hit test needs of a sphere, established at construction: a
    /// positive radius, a center in the working range, and a well-formed
    /// material.
    pub open spec fn wf(self) -> bool {
        self.radius > 0 && in_range(self.center) && mat_wf(self.material)
    }

    /// A sphere. A nonpositive radius has no surface to hit; rather than
    /// silently accept one, construction demands a positive radius.
    pub fn new(center: Point3, radius: i64, material: Material) -> (r: Self)
        requires
            radius > 0,
            in_range(center),
            mat_wf(material),
        ensures
            r == (Sphere { center, radius, material }),
            r.wf(),
    {
        Self { center, radius, material }
    }
}

/// The contract every hittable surface obeys: `hit` returns exactly what
/// the implementor's mathematical model says, and a returned record is
/// usable by every material — its point and normal are in range, the normal
/// opposes the incoming ray, and its parameter lies in the admitted range.
pub trait HitTable {
    /// What the implementor needs of itself (established at construction).
    spec fn hit_wf(&self) -> bool;

    /// Every material the implementor carries has its attenuation in
    /// `[0, 1]`.
    spec fn materials_in_unit(&self) -> bool;

    /// The mathematical model of the hit test.
    spec fn hit_model(&self, r: Ray, t_min: int, t_max: int) -> Option<HitRecord>;

    /// Report the nearest hit within `[t_min, t_max]`, or nothing.
    fn hit(&self, r: &Ray, t_min: i64, t_max: i64) -> (res: Option<HitRecord>)
        requires
            self.hit_wf(),
            ray_in_range(*r),
        ensures
            res == self.hit_model(*r, t_min as int, t_max as int),
            res matches Some(h) ==> (t_min <= h.t <= t_max && in_range(h.p) && in_range(h.normal)
                && mat_wf(h.material) && h.p == r.at_spec(h.t as int) && dot_spec(
                r.direction,
                h.normal,
            ) <= 0),
            self.materials_in_unit() ==> (res matches Some(h) ==> albedo_ok(h.material)),
    ;
}

/// The quadratic coefficient `a = dot(direction, direction)`.
pub open spec fn sphere_a(s: Sphere, r: Ray) -> int {
    dot_spec(r.direction, r.direction)
}

/// The half-coefficient `half_b = dot(origin - center, direction)`.
pub open spec fn sphere_half_b(s: Sphere, r: Ray) -> int {
    dot_spec(vsub(r.origin, s.center), r.direction)
}

/// The constant coefficient `c = |origin - center|^2 - radius^2`.
pub open spec fn sphere_c(s: Sphere, r: Ray) -> int {
    sub_fx(
        dot_spec(vsub(r.origin, s.center), vsub(r.origin, s.center)),
        mul_fx(s.radius as int, s.radius as int),
    )
}

/// The discriminant `half_b^2 - a*c`: negative exactly when the ray's line
/// misses the sphere.
pub open spec fn sphere_disc(s: Sphere, r: Ray) -> int {
    sub_fx(
        mul_fx(sphere_half_b(s, r), sphere_half_b(s, r)),
        mul_fx(sphere_a(s, r), sphere_c(s, r)),
    )
}

/// The record produced for a hit at parameter `t`: the reached point, the
/// outward normal `(p - center) / radius` oriented against the ray, and the
/// sphere's material.
pub open spec fn hit_record_at(s: Sphere, r: Ray, t: int) -> HitRecord
    recommends
        s.radius > 0,
{
    let p = r.at_spec(t);
    let outward = vdiv(vsub(p, s.center), s.radius as int);
    let front = dot_spec(r.direction, outward) < 0;
    HitRecord {
        p,
        normal: if front {
            outward
        } else {
            vneg(outward)
        },
        material: s.material,
        t: t as i64,
        front_face: front,
    }
}

/// The full hit test: no hit when the discriminant is negative (or the
/// direction is too short to carry a quadratic); otherwise the `-` root if
/// it lies within `[t_min, t_max]`, else the `+` root if it does, else no
/// hit.
pub open spec fn sphere_hit_spec(s: Sphere, r: Ray, t_min: int, t_max: int) -> Option<HitRecord>
    recommends
        s.radius > 0,
{
    let a = sphere_a(s, r);
    let disc = sphere_disc(s, r);
    if a <= 0 || disc < 0 {
        None
    } else {
        let sqrtd = sqrt_fx(disc);
        let root1 = div_fx(sub_fx(sub_fx(0, sphere_half_b(s, r)), sqrtd), a);
        let root2 = div_fx(add_fx(sub_fx(0, sphere_half_b(s, r)), sqrtd), a);
        let root = if t_min <= root1 && root1 <= t_max {
            root1
        } else {
            root2
        };
        if t_min <= root && root <= t_max {
            Some(hit_record_at(s, r, root))
        } else {
            None
        }
    }
}

/// A returned hit's parameter lies within the admitted range.
proof fn lemma_sphere_hit_in_range(s: Sphere, r: Ray, t_min: int, t_max: int)
    ensures
        sphere_hit_spec(s, r, t_min, t_max) matches Some(h) ==> t_min <= h.t as int <= t_max,
{
}

/// Narrowing the admitted range down to (at least) a returned hit's
/// parameter returns the same hit: the scene scan's progressive narrowing
/// never hides a nearer hit.
proof fn lemma_sphere_hit_narrow(s: Sphere, r: Ray, t_min: int, t_max: int, c: int, h: HitRecord)
    requires
        sphere_hit_spec(s, r, t_min, t_max) == Some(h),
        h.t as int <= c <= t_max,
    ensures
        sphere_hit_spec(s, r, t_min, c) == Some(h),
{
    let a = sphere_a(s, r);
    let disc = sphere_disc(s, r);
    assert(a > 0 && disc >= 0);
    lemma_sqrt_fx_bounds(disc);
    let sqrtd = sqrt_fx(disc);
    let n1 = sub_fx(sub_fx(0, sphere_half_b(s, r)), sqrtd);
    let n2 = add_fx(sub_fx(0, sphere_half_b(s, r)), sqrtd);
    lemma_tdiv_monotonic(n1 * (SCALE as int), n2 * (SCALE as int), a);
    assert(div_fx(n1, a) <= div_fx(n2, a));
}

/// The scan from member `i` on returns a hit no farther than any member's
/// own hit within the current bound.
proof fn lemma_list_hit_from_nearest(
    objs: Seq<Sphere>,
    r: Ray,
    t_min: int,
    i: int,
    closest: int,
    best: Option<HitRecord>,
)
    requires
        0 <= i <= objs.len(),
        best matches Some(b) ==> b.t as int <= closest,
    ensures
        list_hit_from(objs, r, t_min, i, closest, best) matches Some(h) ==> h.t as int <= closest,
        list_hit_from(objs, r, t_min, i, closest, best) matches Some(h) ==> forall|j: int|
            i <= j < objs.len() ==> (sphere_hit_spec(#[trigger] objs[j], r, t_min, closest)
                matches Some(hj) ==> h.t as int <= hj.t as int),
    decreases objs.len() - i,
{
    if i < objs.len() {
        match sphere_hit_spec(objs[i], r, t_min, closest) {
            Option::Some(hi) => {
                lemma_sphere_hit_in_range(objs[i], r, t_min, closest);
                lemma_list_hit_from_nearest(objs, r, t_min, i + 1, hi.t as int, Some(hi));
                match list_hit_from(objs, r, t_min, i, closest, best) {
                    Option::Some(h) => {
                        assert forall|j: int|
                            i <= j < objs.len() implies (sphere_hit_spec(
                            #[trigger] objs[j],
                            r,
                            t_min,
                            closest,
                        ) matches Some(hj) ==> h.t as int <= hj.t as int) by {
                            if i < j {
                                match sphere_hit_spec(objs[j], r, t_min, closest) {
                                    Option::Some(hj) => {
                                        if hj.t as int <= hi.t as int {
                                            lemma_sphere_hit_narrow(
                                                objs[j],
                                                r,
                                                t_min,
                                                closest,
                                                hi.t as int,
                                                hj,
                                            );
                                        }
                                    },
                                    Option::None => {},
                                }
                            }
                        }
                    },
                    Option::None => {},
                }
            },
            Option::None => {
                lemma_list_hit_from_nearest(objs, r, t_min, i + 1, closest, best);
            },
        }
    }
}

/// One component of `lemma_hit_normal_offset`: fixed-point division by the
/// radius, scaled back by the radius, lands within one radius of the
/// exactly scaled dividend.
proof fn lemma_div_fx_offset(a: int, b: int)
    requires
        0 < b <= 0x100_0000_0000,
        -0x200_0000_0000 <= a <= 0x200_0000_0000,
    ensures
        -b < b * div_fx(a, b) - (SCALE as int) * a < b,
{
    lemma_tdiv_rem(a * (SCALE as int), b);
    let t = tdiv(a * (SCALE as int), b);
    assert(-0x201_0000_0000_0000 <= t <= 0x201_0000_0000_0000) by (nonlinear_arith)
        requires
            b >= 1,
            -0x201_0000_0000_0000 <= b * t <= 0x201_0000_0000_0000,
    ;
    assert(div_fx(a, b) == t);
}

/// How the stored normal relates to the hit offset, for a hit within
/// ordinary magnitudes: the outward normal is the offset `p - center`
/// divided by the radius with one truncation per component — scaled back by
/// the radius, each component lands within one radius raw unit of the
/// exactly scaled offset — and the stored normal is that vector on a
/// front-face hit and its negation on a back-face hit.
pub proof fn lemma_hit_normal_offset(s: Sphere, r: Ray, t_min: int, t_max: int, h: HitRecord)
    requires
        sphere_hit_spec(s, r, t_min, t_max) == Some(h),
        0 < s.radius as int <= 0x100_0000_0000,
        -0x100_0000_0000 <= s.center.x as int <= 0x100_0000_0000,
        -0x100_0000_0000 <= s.center.y as int <= 0x100_0000_0000,
        -0x100_0000_0000 <= s.center.z as int <= 0x100_0000_0000,
        -0x100_0000_0000 <= h.p.x as int <= 0x100_0000_0000,
        -0x100_0000_0000 <= h.p.y as int <= 0x100_0000_0000,
        -0x100_0000_0000 <= h.p.z as int <= 0x100_0000_0000,
    ensures
        ({
            let rad = s.radius as int;
            let ow = vdiv(vsub(h.p, s.center), rad);
            &&& h.normal == if h.front_face {
                ow
            } else {
                vneg(ow)
            }
            &&& -rad < rad * (ow.x as int) - (SCALE as int) * (h.p.x as int - s.center.x as int)
                < rad
            &&& -rad < rad * (ow.y as int) - (SCALE as int) * (h.p.y as int - s.center.y as int)
                < rad
            &&& -rad < rad * (ow.z as int) - (SCALE as int) * (h.p.z as int - s.center.z as int)
                < rad
        }),
{
    let rad = s.radius as int;
    let off = vsub(h.p, s.center);
    assert(off.x as int == h.p.x as int - s.center.x as int);
    assert(off.y as int == h.p.y as int - s.center.y as int);
    assert(off.z as int == h.p.z as int - s.center.z as int);
    lemma_div_fx_offset(off.x as int, rad);
    lemma_div_fx_offset(off.y as int, rad);
    lemma_div_fx_offset(off.z as int, rad);
}

/// A ray aimed straight at a sphere's center from outside — here along
/// `-z` with an exactly-unit direction, the center directly ahead at
/// distance `dist`, and a radius of at least one half so that the square
/// root resolves the surface — hits on its front face; the nearer root is
/// `dist - radius` up to one raw unit of rounding, and the normal points
/// back at the ray origin (axis-aligned, within two raw units of exactly
/// unit).
pub proof fn lemma_head_on_hit(s: Sphere, r: Ray, t_min: int, t_max: int, dist: int)
    requires
        r.direction.x == 0,
        r.direction.y == 0,
        r.direction.z as int == -(SCALE as int),
        s.center.x == r.origin.x,
        s.center.y == r.origin.y,
        r.origin.z as int - s.center.z as int == dist,
        -0x100_0000_0000 <= r.origin.x as int <= 0x100_0000_0000,
        -0x100_0000_0000 <= r.origin.y as int <= 0x100_0000_0000,
        -0x100_0000_0000 <= r.origin.z as int <= 0x100_0000_0000,
        SCALE as int <= 2 * (s.radius as int),
        (s.radius as int) < dist,
        dist <= 0x4000_0000,
        t_min <= dist - s.radius as int,
        dist - s.radius as int + 1 <= t_max,
    ensures
        sphere_hit_spec(s, r, t_min, t_max) matches Some(h) && {
            &&& dist - s.radius as int <= h.t as int <= dist - s.radius as int + 1
            &&& h.front_face
            &&& h.normal.x == 0
            &&& h.normal.y == 0
            &&& SCALE as int - 2 <= h.normal.z as int <= SCALE as int
        },
{
    let si = SCALE as int;
    let rad = s.radius as int;
    let o = r.origin;
    let d = r.direction;

    // a = dot(d, d) is exactly one.
    assert((d.z as int) * (d.z as int) == si * si) by (nonlinear_arith)
        requires
            d.z as int == -si,
    ;
    lemma_tdiv_multiples_vanish(si, si);
    assert(sphere_a(s, r) == si);

    // oc = origin - center is exactly (0, 0, dist).
    let oc = vsub(o, s.center);
    assert(oc.x == 0 && oc.y == 0 && oc.z as int == dist);

    // half_b = dot(oc, d) is exactly -dist.
    assert((oc.z as int) * (d.z as int) == (-dist) * si) by (nonlinear_arith)
        requires
            oc.z as int == dist,
            d.z as int == -si,
    ;
    lemma_tdiv_multiples_vanish(-dist, si);
    assert(sphere_half_b(s, r) == -dist);

    // The scaled squares of the distance and the radius.
    assert(0 <= dist * dist <= 0x1000_0000_0000_0000 && 0 <= rad * rad <= 0x1000_0000_0000_0000
        && rad * rad <= dist * dist) by (nonlinear_arith)
        requires
            0 < rad < dist <= 0x4000_0000,
    ;
    let qd = tdiv(dist * dist, si);
    let qr = tdiv(rad * rad, si);
    lemma_tdiv_rem(dist * dist, si);
    lemma_tdiv_rem(rad * rad, si);
    lemma_tdiv_monotonic(rad * rad, dist * dist, si);
    assert((oc.z as int) * (oc.z as int) == dist * dist) by (nonlinear_arith)
        requires
            oc.z as int == dist,
    ;
    assert(dot_spec(oc, oc) == qd);
    assert(mul_fx(rad, rad) == qr);
    assert(sphere_c(s, r) == qd - qr);

    // The discriminant collapses to the scaled radius squared.
    assert((-dist) * (-dist) == dist * dist) by (nonlinear_arith);
    assert(mul_fx(-dist, -dist) == qd);
    assert(si * (qd - qr) == (qd - qr) * si) by (nonlinear_arith);
    lemma_tdiv_multiples_vanish(qd - qr, si);
    assert(mul_fx(si, qd - qr) == qd - qr);
    assert(sphere_disc(s, r) == qr);

    // The square root of the discriminant is the radius, up to one raw unit.
    lemma_sqrt_fx_bounds(qr);
    let sq = sqrt_fx(qr);
    assert(rad - 1 <= sq <= rad) by (nonlinear_arith)
        requires
            0 <= sq,
            sq * sq <= si * qr,
            si * qr < (sq + 1) * (sq + 1),
            si * qr <= rad * rad,
            rad * rad - si * qr < si,
            si <= 2 * rad,
            0 < rad,
            si == 65536,
    ;

    // The nearer root is dist - sq, chosen because it lies in range.
    let numer = dist - sq;
    assert(sub_fx(sub_fx(0, -dist), sq) == numer);
    lemma_tdiv_multiples_vanish(numer, si);
    assert(div_fx(numer, si) == numer);
    assert(t_min <= numer <= t_max);
    let res = sphere_hit_spec(s, r, t_min, t_max);
    assert(res == Some(hit_record_at(s, r, numer)));

    // The reached point sits sq short of the center along z.
    let p = r.at_spec(numer);
    assert((numer) * 0 == 0) by (nonlinear_arith);
    assert((numer) * (d.z as int) == (-numer) * si) by (nonlinear_arith)
        requires
            d.z as int == -si,
    ;
    lemma_tdiv_multiples_vanish(-numer, si);
    assert(p.x == o.x && p.y == o.y && p.z as int == o.z as int - numer);
    assert(p.z as int - s.center.z as int == sq);

    // The outward normal is axis-aligned and within two raw units of unit.
    let z = div_fx(sq, rad);
    assert((si - 2) * rad <= sq * si <= rad * si) by (nonlinear_arith)
        requires
            rad - 1 <= sq <= rad,
            si <= 2 * rad,
            0 < rad,
            si == 65536,
    ;
    lemma_tdiv_multiples_vanish(si - 2, rad);
    lemma_tdiv_multiples_vanish(si, rad);
    lemma_tdiv_monotonic((si - 2) * rad, sq * si, rad);
    lemma_tdiv_monotonic(sq * si, si * rad, rad);
    assert((si - 2) * rad == rad * (si - 2)) by (nonlinear_arith);
    assert(si * rad == rad * si) by (nonlinear_arith);
    assert(si - 2 <= z <= si);
    let outward = vdiv(vsub(p, s.center), rad);
    assert(outward.x == 0 && outward.y == 0 && outward.z as int == z);

    // The normal faces the ray: front face, unflipped.
    assert((d.z as int) * (outward.z as int) == (-z) * si) by (nonlinear_arith)
        requires
            d.z as int == -si,
            outward.z as int == z,
    ;
    lemma_tdiv_multiples_vanish(-z, si);
    assert(dot_spec(d, outward) == -z);
    assert(hit_record_at(s, r, numer).front_face);
}

/// The nearest hit wins, whatever the insertion order: when the scan
/// reports a hit, no member's own hit within the full range is nearer.
pub proof fn lemma_list_hit_nearest(objs: Seq<Sphere>, r: Ray, t_min: int, t_max: int)
    ensures
        list_hit_spec(objs, r, t_min, t_max) matches Some(h) ==> forall|j: int|
            0 <= j < objs.len() ==> (sphere_hit_spec(#[trigger] objs[j], r, t_min, t_max)
                matches Some(hj) ==> h.t as int <= hj.t as int),
{
    lemma_list_hit_from_nearest(objs, r, t_min, 0, t_max, None);
}

impl Sphere {
    /// Solve the ray/sphere quadratic and report the nearest hit within
    /// `[t_min, t_max]`, or nothing — in particular, nothing whenever the
    /// discriminant is negative.
    pub fn hit(&self, r: &Ray, t_min: i64, t_max: i64) -> (res: Option<HitRecord>)
        requires
            self.wf(),
            ray_in_range(*r),
        ensures
            res == sphere_hit_spec(*self, *r, t_min as int, t_max as int),
            sphere_disc(*self, *r) < 0 ==> res is None,
            res matches Some(h) ==> (t_min <= h.t <= t_max && h.material == self.material && h.p
                == r.at_spec(h.t as int) && in_range(h.p) && in_range(h.normal) && mat_wf(
                h.material,
            )),
            res matches Some(h) ==> dot_spec(r.direction, h.normal) <= 0,
    {
        let oc = r.origin.sub(self.center);
        let a = dot(r.direction, r.direction);
        let half_b = dot(oc, r.direction);
        let c = fsub(dot(oc, oc), fmul(self.radius, self.radius));

        let discriminant = fsub(fmul(half_b, half_b), fmul(a, c));
        if a <= 0 || discriminant < 0 {
            return None;
        }
        let sqrtd = fsqrt(discriminant);

        let mut root = fdiv(fsub(fsub(0, half_b), sqrtd), a);
        if root < t_min || t_max < root {
            root = fdiv(fadd(fsub(0, half_b), sqrtd), a);
            if root < t_min || t_max < root {
                return None;
            }
        }

        let t = root;
        let p = r.at(t);
        let outward_normal = p.sub(self.center).div(self.radius);
        let material = self.material;
        let h = HitRecord::new(p, t, material).set_face_normal(r, &outward_normal);
        proof {
            if dot_spec(r.direction, outward_normal) >= 0 {
                crate::vec3::lemma_dot_neg(r.direction, outward_normal);
            }
        }
        Some(h)
    }
}

impl HitTable for Sphere {
    open spec fn hit_wf(&self) -> bool {
        self.wf()
    }

    open spec fn materials_in_unit(&self) -> bool {
        albedo_ok(self.material)
    }

    open spec fn hit_model(&self, r: Ray, t_min: int, t_max: int) -> Option<HitRecord> {
        sphere_hit_spec(*self, r, t_min, t_max)
    }

    fn hit(&self, r: &Ray, t_min: i64, t_max: i64) -> (res: Option<HitRecord>) {
        Sphere::hit(self, r, t_min, t_max)
    }
}

/// An ordered collection of spheres, queried for the nearest hit.
pub struct HitTableList {
    pub objects: Vec<Sphere>,
}

/// Every member is well formed.
pub open spec fn list_wf(objs: Seq<Sphere>) -> bool {
    forall|j: int| 0 <= j < objs.len() ==> (#[trigger] objs[j]).wf()
}

/// Every member's material attenuates within `[0, 1]`.
pub open spec fn list_albedo_ok(objs: Seq<Sphere>) -> bool {
    forall|j: int| 0 <= j < objs.len() ==> albedo_ok((#[trigger] objs[j]).material)
}

/// The scan the list performs, from member `i` on, with the best hit and the
/// narrowed upper bound found so far: each successful test narrows `closest`
/// to its `t`, so the final record is the nearest hit.
pub open spec fn list_hit_from(
    objs: Seq<Sphere>,
    r: Ray,
    t_min: int,
    i: int,
    closest: int,
    best: Option<HitRecord>,
) -> Option<HitRecord>
    decreases objs.len() - i,
{
    if i < 0 || i >= objs.len() {
        best
    } else {
        match sphere_hit_spec(objs[i], r, t_min, closest) {
            Some(h) => list_hit_from(objs, r, t_min, i + 1, h.t as int, Some(h)),
            None => list_hit_from(objs, r, t_min, i + 1, closest, best),
        }
    }
}

/// The nearest hit among all members within `[t_min, t_max]`, if any.
pub open spec fn list_hit_spec(objs: Seq<Sphere>, r: Ray, t_min: int, t_max: int) -> Option<
    HitRecord,
> {
    list_hit_from(objs, r, t_min, 0, t_max, None)
}

impl Default for HitTableList {
    /// The empty scene.
    fn default() -> (r: Self)
        ensures
            r.objects@ == Seq::<Sphere>::empty(),
    {
        HitTableList { objects: Vec::new() }
    }
}

impl HitTableList {
    /// Append a surface to the scene.
    pub fn add(&mut self, object: Sphere)
        ensures
            final(self).objects@ == old(self).objects@.push(object),
    {
        self.objects.push(object)
    }

    /// Scan every member, narrowing the admitted range to the closest hit so
    /// far, and report the overall nearest hit; nothing exactly when no
    /// member is hit within `[t_min, t_max]`.
    pub fn hit(&self, r: &Ray, t_min: i64, t_max: i64) -> (res: Option<HitRecord>)
        requires
            list_wf(self.objects@),
            ray_in_range(*r),
        ensures
            res == list_hit_spec(self.objects@, *r, t_min as int, t_max as int),
            res matches Some(h) ==> (t_min <= h.t <= t_max && in_range(h.p) && in_range(h.normal)
                && mat_wf(h.material) && h.p == r.at_spec(h.t as int) && dot_spec(
                r.direction,
                h.normal,
            ) <= 0),
            res is None ==> forall|j: int|
                0 <= j < self.objects@.len() ==> sphere_hit_spec(
                    #[trigger] self.objects@[j],
                    *r,
                    t_min as int,
                    t_max as int,
                ) is None,
            res matches Some(h) ==> forall|j: int|
                0 <= j < self.objects@.len() ==> (sphere_hit_spec(
                    #[trigger] self.objects@[j],
                    *r,
                    t_min as int,
                    t_max as int,
                ) matches Some(hj) ==> h.t as int <= hj.t as int),
            list_albedo_ok(self.objects@) ==> (res matches Some(h) ==> albedo_ok(h.material)),
    {
        proof {
            lemma_list_hit_nearest(self.objects@, *r, t_min as int, t_max as int);
        }
        let ghost objs = self.objects@;
        let mut temp_rec: Option<HitRecord> = None;
        let mut closest_so_far = t_max;
        let mut i: usize = 0;

        while i < self.objects.len()
            invariant
                list_wf(objs),
                ray_in_range(*r),
                objs == self.objects@,
                0 <= i <= objs.len(),
                list_hit_spec(objs, *r, t_min as int, t_max as int) == list_hit_from(
                    objs,
                    *r,
                    t_min as int,
                    i as int,
                    closest_so_far as int,
                    temp_rec,
                ),
                temp_rec is None ==> closest_so_far == t_max,
                temp_rec is None ==> forall|j: int|
                    0 <= j < i ==> sphere_hit_spec(
                        #[trigger] objs[j],
                        *r,
                        t_min as int,
                        t_max as int,
                    ) is None,
                temp_rec matches Some(h) ==> (t_min <= h.t <= t_max && h.t == closest_so_far
                    && in_range(h.p) && in_range(h.normal) && mat_wf(h.material) && h.p
                    == r.at_spec(h.t as int) && dot_spec(r.direction, h.normal) <= 0),
                list_albedo_ok(objs) ==> (temp_rec matches Some(h) ==> albedo_ok(h.material)),
            decreases objs.len() - i,
        {
            let obj = &self.objects[i];
            if let Some(h) = obj.hit(r, t_min, closest_so_far) {
                closest_so_far = h.t;
                temp_rec = Some(h);
            }
            i = i + 1;
        }

        temp_rec
    }
}

impl HitTable for HitTableList {
    open spec fn hit_wf(&self) -> bool {
        list_wf(self.objects@)
    }

    open spec fn materials_in_unit(&self) -> bool {
        list_albedo_ok(self.objects@)
    }

    open spec fn hit_model(&self, r: Ray, t_min: int, t_max: int) -> Option<HitRecord> {
        list_hit_spec(self.objects@, r, t_min, t_max)
    }

    fn hit(&self, r: &Ray, t_min: i64, t_max: i64) -> (res: Option<HitRecord>) {
        HitTableList::hit(self, r, t_min, t_max)
    }
}

} // verus!
