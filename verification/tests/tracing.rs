//! Intersection, scattering, camera and integrator scenarios on concrete
//! fixed-point scenes (`65536` is one).

use ray_tracing_in_one_weekend::camera::Camera;
use ray_tracing_in_one_weekend::color::write_color;
use ray_tracing_in_one_weekend::hittable::{HitRecord, HitTableList, Sphere};
use ray_tracing_in_one_weekend::material::{Dielectric, Lambertian, Material, Metal};
use ray_tracing_in_one_weekend::ray::Ray;
use ray_tracing_in_one_weekend::ray_color;
use ray_tracing_in_one_weekend::rtweekend::CLIP_MAX;
use ray_tracing_in_one_weekend::vec3::{dot, Vec3};

const S: i64 = 65536;

fn gray() -> Material {
    Material::Lambertian(Lambertian::new(Vec3::new(S / 2, S / 2, S / 2)))
}

#[test]
fn sphere_hit_head_on_from_outside() {
    // A ray aimed straight at a sphere two units away with radius one half:
    // the nearer root is distance minus radius, and the normal points back
    // at the ray origin.
    let s = Sphere::new(Vec3::new(0, 0, -2 * S), S / 2, gray());
    let r = Ray::new(Vec3::zero(), Vec3::new(0, 0, -S));
    let h = s.hit(&r, 66, CLIP_MAX).expect("head-on ray must hit");
    assert_eq!(h.t, 98304); // 1.5 exactly
    assert_eq!(h.normal, Vec3::new(0, 0, S));
    assert!(h.front_face);
    assert_eq!(h.p, Vec3::new(0, 0, -98304));
    assert!(dot(r.direction, h.normal) <= 0);
}

#[test]
fn sphere_hit_from_inside_flips_normal() {
    // From the center of a sphere the outward normal at the struck point
    // faces away, so the stored normal is flipped back toward the origin.
    let s = Sphere::new(Vec3::zero(), S / 2, gray());
    let r = Ray::new(Vec3::zero(), Vec3::new(0, 0, -S));
    let h = s.hit(&r, 66, CLIP_MAX).expect("interior ray must hit");
    assert_eq!(h.t, S / 2);
    assert!(!h.front_face);
    assert_eq!(h.normal, Vec3::new(0, 0, S));
}

#[test]
fn sphere_miss_returns_none() {
    // A ray climbing at 45 degrees passes well over the sphere: negative
    // discriminant, no result.
    let s = Sphere::new(Vec3::new(0, 0, -S), S / 2, gray());
    let r = Ray::new(Vec3::zero(), Vec3::new(0, S, -S));
    assert!(s.hit(&r, 66, CLIP_MAX).is_none());
}

#[test]
fn sphere_hit_outside_range_returns_none() {
    let s = Sphere::new(Vec3::new(0, 0, -2 * S), S / 2, gray());
    let r = Ray::new(Vec3::zero(), Vec3::new(0, 0, -S));
    // Both roots (1.5 and 2.5) lie beyond the admitted range.
    assert!(s.hit(&r, 66, S).is_none());
}

#[test]
fn nearest_hit_wins_in_either_insertion_order() {
    let near = Sphere::new(Vec3::new(0, 0, -2 * S), S / 2, gray());
    let far = Sphere::new(Vec3::new(0, 0, -4 * S), S / 2, gray());
    let r = Ray::new(Vec3::zero(), Vec3::new(0, 0, -S));

    let mut world = HitTableList::default();
    world.add(near);
    world.add(far);
    let h = world.hit(&r, 66, CLIP_MAX).expect("must hit the near sphere");
    assert_eq!(h.t, 98304);

    let mut reversed = HitTableList::default();
    reversed.add(far);
    reversed.add(near);
    let h2 = reversed.hit(&r, 66, CLIP_MAX).expect("must hit the near sphere");
    assert_eq!(h2.t, 98304);
}

#[test]
fn empty_scene_hits_nothing() {
    let world = HitTableList::default();
    let r = Ray::new(Vec3::zero(), Vec3::new(0, 0, -S));
    assert!(world.hit(&r, 66, CLIP_MAX).is_none());
}

#[test]
fn set_face_normal_orients_against_ray() {
    let rec = HitRecord::new(Vec3::new(0, 0, -S), S, gray());
    let r = Ray::new(Vec3::zero(), Vec3::new(0, 0, -S));
    let outward = Vec3::new(0, 0, S);
    let front = rec.set_face_normal(&r, &outward);
    assert!(front.front_face);
    assert_eq!(front.normal, outward);

    let inward = Vec3::new(0, 0, -S);
    let back = rec.set_face_normal(&r, &inward);
    assert!(!back.front_face);
    assert_eq!(back.normal, Vec3::new(0, 0, S));
}

#[test]
fn lambertian_scatter_never_absorbs() {
    let albedo = Vec3::new(S / 2, 45875, S);
    let mat = Lambertian::new(albedo);
    let r_in = Ray::new(Vec3::zero(), Vec3::new(0, 0, -S));
    let rec = HitRecord::new(Vec3::new(0, 0, -S), S, Material::Lambertian(mat)).set_face_normal(
        &r_in,
        &Vec3::new(0, 0, S),
    );
    let mut i = 0;
    while i < 100 {
        let (attenuation, scattered) = mat.scatter(&r_in, &rec).expect("diffuse never absorbs");
        assert_eq!(attenuation, albedo);
        assert_eq!(scattered.origin, rec.p);
        i += 1;
    }
}

#[test]
fn lambertian_direction_is_normal_plus_unit() {
    // The scattered direction is the normal plus a drawn unit vector, or
    // the normal alone when that sum degenerates: subtracting the normal
    // leaves (almost) a unit vector, or nothing.
    let mat = Lambertian::new(Vec3::new(S, S, S));
    let r_in = Ray::new(Vec3::zero(), Vec3::new(0, 0, -S));
    let rec = HitRecord::new(Vec3::new(0, 0, -S), S, Material::Lambertian(mat)).set_face_normal(
        &r_in,
        &Vec3::new(0, 0, S),
    );
    let mut i = 0;
    while i < 100 {
        let (_, scattered) = mat.scatter(&r_in, &rec).expect("diffuse never absorbs");
        let u = scattered.direction.sub(rec.normal);
        let lsq = u.length_squared();
        assert!(u == Vec3::zero() || (S - 64 <= lsq && lsq <= S + 64), "lsq = {}", lsq);
        i += 1;
    }
}

#[test]
fn metal_fuzz_perturbs_within_fuzz_radius() {
    // With fuzz one half against a head-on reflection, the scattered
    // direction differs from the mirror direction by the drawn in-sphere
    // point scaled by one half: squared length under a quarter.
    let mat = Metal::new(Vec3::new(S, S, S), S / 2);
    let r_in = Ray::new(Vec3::zero(), Vec3::new(0, 0, -S));
    let rec = HitRecord::new(Vec3::new(0, 0, -S), S, Material::Metal(mat)).set_face_normal(
        &r_in,
        &Vec3::new(0, 0, S),
    );
    let mirror = Vec3::new(0, 0, S);
    let mut i = 0;
    while i < 100 {
        let (_, scattered) = mat.scatter(&r_in, &rec).expect("head-on with small fuzz reflects");
        let d = scattered.direction.sub(mirror);
        let lsq = d.length_squared();
        assert!(lsq <= 16384, "lsq = {}", lsq);
        i += 1;
    }
}

#[test]
fn metal_scatter_mirror_when_fuzz_zero() {
    let albedo = Vec3::new(S, S, S);
    let mat = Metal::new(albedo, 0);
    // Head-on against the front face: reflected straight back.
    let r_in = Ray::new(Vec3::zero(), Vec3::new(0, 0, -S));
    let rec = HitRecord::new(Vec3::new(0, 0, -S), S, Material::Metal(mat)).set_face_normal(
        &r_in,
        &Vec3::new(0, 0, S),
    );
    let (attenuation, scattered) = mat.scatter(&r_in, &rec).expect("head-on mirror reflects");
    assert_eq!(attenuation, albedo);
    assert_eq!(scattered.origin, rec.p);
    assert_eq!(scattered.direction, Vec3::new(0, 0, S));
}

#[test]
fn metal_scatter_absorbs_grazing_reflection() {
    let mat = Metal::new(Vec3::new(S, S, S), 0);
    // A tangent ray reflects into the surface plane: dot with the normal is
    // zero, so the ray is absorbed.
    let r_in = Ray::new(Vec3::zero(), Vec3::new(S, 0, 0));
    let rec = HitRecord::new(Vec3::new(S, 0, 0), S, Material::Metal(mat)).set_face_normal(
        &r_in,
        &Vec3::new(0, 0, S),
    );
    assert!(mat.scatter(&r_in, &rec).is_none());
}

#[test]
fn metal_new_clamps_fuzz_to_one() {
    let m = Metal::new(Vec3::new(S, S, S), 3 * S);
    assert_eq!(m.fuzz, S);
    let m2 = Metal::new(Vec3::new(S, S, S), S / 4);
    assert_eq!(m2.fuzz, S / 4);
}

#[test]
fn dielectric_head_on_passes_straight_through() {
    let mat = Dielectric::new(98304); // index 1.5
    let r_in = Ray::new(Vec3::zero(), Vec3::new(0, 0, -S));
    let rec = HitRecord::new(Vec3::new(0, 0, -S), S, Material::Dielectric(mat)).set_face_normal(
        &r_in,
        &Vec3::new(0, 0, S),
    );
    let (attenuation, scattered) = mat.scatter(&r_in, &rec).expect("glass never absorbs");
    assert_eq!(attenuation, Vec3::new(S, S, S));
    assert_eq!(scattered.origin, rec.p);
    assert_eq!(scattered.direction, Vec3::new(0, 0, -S));
}

#[test]
fn ray_color_depth_zero_is_black() {
    let mut world = HitTableList::default();
    world.add(Sphere::new(Vec3::new(0, 0, -S), S / 2, gray()));
    let rays = [
        Ray::new(Vec3::zero(), Vec3::new(0, 0, -S)),
        Ray::new(Vec3::zero(), Vec3::new(0, S, -S)),
        Ray::new(Vec3::new(S, S, S), Vec3::new(S, 0, 0)),
    ];
    let mut i = 0;
    while i < rays.len() {
        assert_eq!(ray_color(&rays[i], &world, 0), Vec3::zero());
        i += 1;
    }
}

#[test]
fn ray_color_depth_one_hit_is_black() {
    // A pure-white diffuse sphere with a single bounce allowed: scattering
    // succeeds but the recursive term is depth-exhausted, so every hitting
    // ray returns exactly black.
    let mut world = HitTableList::default();
    world.add(Sphere::new(
        Vec3::new(0, 0, -S),
        S / 2,
        Material::Lambertian(Lambertian::new(Vec3::new(S, S, S))),
    ));
    let r = Ray::new(Vec3::zero(), Vec3::new(0, 0, -S));
    let mut i = 0;
    while i < 50 {
        assert_eq!(ray_color(&r, &world, 1), Vec3::zero());
        i += 1;
    }
}

#[test]
fn ray_color_miss_sees_sky_gradient() {
    let mut world = HitTableList::default();
    world.add(Sphere::new(Vec3::new(0, 0, -S), S / 2, gray()));
    // Straight up at 45 degrees and straight down at 45 degrees.
    let up = Ray::new(Vec3::zero(), Vec3::new(0, S, -S));
    let down = Ray::new(Vec3::zero(), Vec3::new(0, -S, -S));
    assert_eq!(ray_color(&up, &world, 50), Vec3::new(37567, 48754, S));
    assert_eq!(ray_color(&down, &world, 50), Vec3::new(60737, 62656, S));
    // The blue channel of the sky is always full.
    let level = Ray::new(Vec3::zero(), Vec3::new(S, 0, 0));
    assert_eq!(ray_color(&level, &world, 50), Vec3::new(49152, 55705, S));
}

#[test]
fn dielectric_exit_through_back_face() {
    // From the center of a glass sphere the ray strikes the back face
    // (front_face is false) and leaves head-on, unbent.
    let mat = Dielectric::new(98304);
    let s = Sphere::new(Vec3::zero(), S, Material::Dielectric(mat));
    let r_in = Ray::new(Vec3::zero(), Vec3::new(0, 0, -S));
    let rec = s.hit(&r_in, 66, CLIP_MAX).expect("interior ray must hit");
    assert!(!rec.front_face);
    assert_eq!(rec.p, Vec3::new(0, 0, -S));
    let (attenuation, scattered) = mat.scatter(&r_in, &rec).expect("glass never absorbs");
    assert_eq!(attenuation, Vec3::new(S, S, S));
    assert_eq!(scattered.direction, Vec3::new(0, 0, -S));
}

#[test]
fn ray_color_over_a_bare_sphere() {
    // The integrator works over any hittable surface, a single sphere
    // included.
    let s = Sphere::new(Vec3::new(0, 0, -2 * S), S / 2, gray());
    let away = Ray::new(Vec3::zero(), Vec3::new(0, S, S));
    assert_eq!(ray_color(&away, &s, 50), Vec3::new(37567, 48754, S));
    let at_it = Ray::new(Vec3::zero(), Vec3::new(0, 0, -S));
    assert_eq!(ray_color(&at_it, &s, 0), Vec3::zero());
    assert_eq!(ray_color(&at_it, &s, 1), Vec3::zero());
}

#[test]
fn sky_never_exceeds_full_intensity() {
    // A very short downward direction normalizes with overshoot (raw y
    // becomes -76800, below negative one); the clamped sky parameter pins
    // the color to the white endpoint instead of exceeding it.
    let world = HitTableList::default();
    let r = Ray::new(Vec3::zero(), Vec3::new(0, -300, 0));
    assert_eq!(ray_color(&r, &world, 50), Vec3::new(S, S, S));
    assert_eq!(write_color(ray_color(&r, &world, 50), 1), (255, 255, 255));
}

#[test]
fn ray_color_zero_direction_sees_mid_sky() {
    // A zero direction normalizes to zero by policy, carries no quadratic,
    // hits nothing, and lands exactly in the middle of the sky gradient.
    let mut world = HitTableList::default();
    world.add(Sphere::new(Vec3::new(0, 0, -S), S / 2, gray()));
    let r = Ray::new(Vec3::zero(), Vec3::zero());
    assert_eq!(ray_color(&r, &world, 50), Vec3::new(49152, 55705, S));
}

#[test]
fn camera_viewport_geometry() {
    // Viewport height 2, square aspect: the lower-left corner sits one unit
    // left, down and forward.
    let cam = Camera::new(2 * S, S);
    assert_eq!(cam.origin, Vec3::zero());
    assert_eq!(cam.lower_left_corner, Vec3::new(-S, -S, -S));
    assert_eq!(cam.horizontal, Vec3::new(2 * S, 0, 0));
    assert_eq!(cam.vertical, Vec3::new(0, 2 * S, 0));
    // The center of the image looks straight down -z.
    let center = cam.get_ray(S / 2, S / 2);
    assert_eq!(center.origin, Vec3::zero());
    assert_eq!(center.direction, Vec3::new(0, 0, -S));
    // A 16:9 viewport widens the horizontal basis.
    let wide = Camera::new(2 * S, 116508);
    assert_eq!(wide.horizontal, Vec3::new(233016, 0, 0));
    assert_eq!(wide.lower_left_corner, Vec3::new(-116508, -S, -S));
}

#[test]
fn end_to_end_single_sphere_rows() {
    // One sphere of radius one half at (0, 0, -1), camera at the origin
    // looking down -z, one deterministic sample per pixel at the pixel
    // center. The center pixel hits the sphere; the top and bottom image
    // rows miss and quantize the sky gradient.
    let mut world = HitTableList::default();
    world.add(Sphere::new(
        Vec3::new(0, 0, -S),
        S / 2,
        Material::Lambertian(Lambertian::new(Vec3::new(S, S, S))),
    ));
    let cam = Camera::new(2 * S, S);

    let center = cam.get_ray(S / 2, S / 2);
    let hit = world.hit(&center, 66, CLIP_MAX).expect("center pixel must hit the sphere");
    assert_eq!(hit.t, S / 2);
    assert_eq!(hit.normal, Vec3::new(0, 0, S));

    // With a single bounce the hit pixel is exactly black.
    assert_eq!(write_color(ray_color(&center, &world, 1), 1), (0, 0, 0));

    let top = cam.get_ray(S / 2, S);
    assert!(world.hit(&top, 66, CLIP_MAX).is_none());
    assert_eq!(write_color(ray_color(&top, &world, 50), 1), (193, 220, 255));

    let bottom = cam.get_ray(S / 2, 0);
    assert!(world.hit(&bottom, 66, CLIP_MAX).is_none());
    assert_eq!(write_color(ray_color(&bottom, &world, 50), 1), (246, 250, 255));
}
