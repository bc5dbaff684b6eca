//! Vector algebra, scalar utilities and color mapping, checked on concrete
//! fixed-point values (`65536` is one).

use ray_tracing_in_one_weekend::color::write_color;
use ray_tracing_in_one_weekend::rtweekend::{clamp, degrees_to_radians, fsqrt};
use ray_tracing_in_one_weekend::vec3::{dot, reflect, refract, unit_vector, Vec3};

const S: i64 = 65536;

#[test]
fn vec3_componentwise_ops() {
    let a = Vec3::new(S, 2 * S, -S);
    let b = Vec3::new(S / 2, -S, 3 * S);
    assert_eq!(a.add(b), Vec3::new(3 * S / 2, S, 2 * S));
    assert_eq!(a.sub(b), Vec3::new(S / 2, 3 * S, -4 * S));
    assert_eq!(a.neg(), Vec3::new(-S, -2 * S, S));
    assert_eq!(a.scale(2 * S), Vec3::new(2 * S, 4 * S, -2 * S));
    assert_eq!(a.comp_mul(b), Vec3::new(S / 2, -2 * S, -3 * S));
    assert_eq!(a.div(2 * S), Vec3::new(S / 2, S, -S / 2));
}

#[test]
fn dot_and_length() {
    let a = Vec3::new(S, 2 * S, 2 * S);
    assert_eq!(dot(a, a), 9 * S);
    assert_eq!(a.length_squared(), 9 * S);
    assert_eq!(a.length(), 3 * S);
    assert_eq!(unit_vector(Vec3::new(0, 0, -2 * S)), Vec3::new(0, 0, -S));
    assert_eq!(unit_vector(Vec3::zero()), Vec3::zero());
}

#[test]
fn fsqrt_exact_squares() {
    assert_eq!(fsqrt(0), 0);
    assert_eq!(fsqrt(S), S);
    assert_eq!(fsqrt(4 * S), 2 * S);
    assert_eq!(fsqrt(16384), 32768);
}

#[test]
fn reflect_matches_formula() {
    // v = (1, -1, 0) against the upward unit normal: (1, 1, 0).
    let v = Vec3::new(S, -S, 0);
    let n = Vec3::new(0, S, 0);
    assert_eq!(reflect(v, n), Vec3::new(S, S, 0));
}

#[test]
fn reflect_opposes_normal() {
    let v = Vec3::new(S, -S, 0);
    let n = Vec3::new(0, S, 0);
    let r = reflect(v, n);
    assert_eq!(dot(r, n), -dot(v, n));

    let v2 = Vec3::new(3 * S, -5 * S, 2 * S);
    let n2 = Vec3::new(0, 0, -S);
    assert_eq!(dot(reflect(v2, n2), n2), -dot(v2, n2));
}

#[test]
fn refract_head_on_passes_straight() {
    let uv = Vec3::new(0, 0, -S);
    let n = Vec3::new(0, 0, S);
    assert_eq!(refract(uv, n, 98304), Vec3::new(0, 0, -S));
}

#[test]
fn refract_angled_bends_toward_normal() {
    // 45 degrees onto an upward normal, entering a denser medium
    // (ratio 1/1.5 = 43690 raw).
    let uv = Vec3::new(46341, -46341, 0);
    let n = Vec3::new(0, S, 0);
    assert_eq!(refract(uv, n, 43690), Vec3::new(30893, -57798, 0));
}

#[test]
fn near_zero_only_at_zero() {
    assert!(Vec3::zero().near_zero());
    assert!(!Vec3::new(1, 0, 0).near_zero());
    assert!(!Vec3::new(0, 0, -1).near_zero());
}

#[test]
fn clamp_passes_or_pins() {
    assert_eq!(clamp(5, 0, 10), 5);
    assert_eq!(clamp(-5, 0, 10), 0);
    assert_eq!(clamp(15, 0, 10), 10);
}

#[test]
fn degrees_to_radians_exact_points() {
    assert_eq!(degrees_to_radians(180 * S), 205887);
    assert_eq!(degrees_to_radians(90 * S), 102943);
    assert_eq!(degrees_to_radians(0), 0);
}

#[test]
fn write_color_gamma_and_quantization() {
    // Full white at one sample saturates; a quarter gamma-corrects to half.
    assert_eq!(write_color(Vec3::new(S, 16384, 0), 1), (255, 128, 0));
    // Averaging four samples of the same values gives the same bytes.
    assert_eq!(write_color(Vec3::new(4 * S, S, 0), 4), (255, 128, 0));
    // Negative light is clamped to black.
    assert_eq!(write_color(Vec3::new(-5, -S, 0), 1), (0, 0, 0));
}

#[test]
fn gamma_requantization_stays_in_byte_and_monotone() {
    let mut prev: (u8, u8, u8) = (0, 0, 0);
    let mut k: i64 = 0;
    while k <= 255 {
        // k/256 is already a gamma-space byte value; mapping it again must
        // stay inside [0, 255] and never decrease along the sweep.
        let b = write_color(Vec3::new(k * 256, k * 256, k * 256), 1);
        assert!(b.0 <= 255);
        assert!(b.0 >= prev.0);
        prev = b;
        k += 1;
    }
}

#[test]
fn random_in_unit_sphere_strictly_inside_and_not_short() {
    let mut i = 0;
    while i < 200 {
        let p = Vec3::random_in_unit_sphere();
        let lsq = p.length_squared();
        // Strictly inside the unit sphere, and no shorter than one half:
        // the sampler's floor that keeps normalization accurate.
        assert!(S / 4 <= lsq && lsq < S);
        i += 1;
    }
}

#[test]
fn random_unit_vector_has_near_unit_length() {
    let mut i = 0;
    while i < 200 {
        let u = Vec3::random_unit_vector();
        let lsq = u.length_squared();
        // One raw unit squared is 65536; the generator guarantees the
        // squared length within sixty-four raw units of it.
        assert!(S - 64 <= lsq && lsq <= S + 64, "lsq = {}", lsq);
        i += 1;
    }
}
