//! Fixed-point scalar behavior: products, quotients, trigonometry,
//! powers and pixel quantization.

use raytracer::fixed::{cos_deg, emod, fdiv, fmul, fpow, isqrt, sin_deg};
use raytracer::scene::lighting::Color;

const ONE: i64 = 65536;

#[test]
fn products_round_toward_zero() {
    assert_eq!(fmul(ONE, ONE), ONE);
    assert_eq!(fmul(3 * ONE, -2 * ONE), -6 * ONE);
    assert_eq!(fmul(1, 1), 0);
    assert_eq!(fmul(-1, 1), 0);
    assert_eq!(fmul(ONE / 2, ONE / 2), ONE / 4);
}

#[test]
fn quotients_round_toward_zero() {
    assert_eq!(fdiv(ONE, 2 * ONE), ONE / 2);
    assert_eq!(fdiv(-ONE, 2 * ONE), -ONE / 2);
    assert_eq!(fdiv(1, 3), 21845);
    assert_eq!(fdiv(-1, 3), -21845);
}

#[test]
fn square_roots_floor() {
    assert_eq!(isqrt(0), 0);
    assert_eq!(isqrt(1), 1);
    assert_eq!(isqrt(99), 9);
    assert_eq!(isqrt(100), 10);
    assert_eq!(isqrt(u64::MAX as u128), 0xffff_ffff);
}

#[test]
fn remainders_wrap_into_range() {
    assert_eq!(emod(7, 5), 2);
    assert_eq!(emod(-7, 5), 3);
    assert_eq!(emod(-10, 5), 0);
    assert_eq!(emod(0, 65536), 0);
}

#[test]
fn right_angles_are_exact() {
    assert_eq!(sin_deg(0), 0);
    assert_eq!(sin_deg(90 * ONE), ONE);
    assert_eq!(sin_deg(180 * ONE), 0);
    assert_eq!(sin_deg(270 * ONE), -ONE);
    assert_eq!(cos_deg(0), ONE);
    assert_eq!(cos_deg(90 * ONE), 0);
    assert_eq!(cos_deg(180 * ONE), -ONE);
    assert_eq!(cos_deg(-90 * ONE), 0);
    assert_eq!(sin_deg(360 * ONE + 90 * ONE), ONE);
}

#[test]
fn oblique_angles_are_close() {
    let s30 = sin_deg(30 * ONE) as f64 / 65536.0;
    assert!((s30 - 0.5).abs() < 2e-3, "sin 30 came out {}", s30);
    let c60 = cos_deg(60 * ONE) as f64 / 65536.0;
    assert!((c60 - 0.5).abs() < 2e-3, "cos 60 came out {}", c60);
    let s45 = sin_deg(45 * ONE) as f64 / 65536.0;
    assert!((s45 - 0.70710678).abs() < 2e-3, "sin 45 came out {}", s45);
}

#[test]
fn powers_iterate_multiplication() {
    assert_eq!(fpow(ONE / 2, 0), ONE);
    assert_eq!(fpow(ONE / 2, 1), ONE / 2);
    assert_eq!(fpow(ONE / 2, 2), ONE / 4);
    assert_eq!(fpow(ONE, 1000), ONE);
    assert_eq!(fpow(0, 3), 0);
}

#[test]
fn pixels_clamp_and_truncate() {
    assert_eq!(Color(0, 0, 0).to_pixel(), (0, 0, 0));
    assert_eq!(Color(ONE, ONE / 2, -ONE).to_pixel(), (255, 127, 0));
    assert_eq!(Color(10 * ONE, ONE - 1, 1).to_pixel(), (255, 254, 0));
}

#[test]
fn colors_accumulate() {
    let mut c = Color(1, 2, 3);
    c.add(Color(10, 20, 30));
    assert_eq!(c, Color(11, 22, 33));
}
