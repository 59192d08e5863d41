//! Vector algebra: fixed-point analogs of the classic component checks.
//! A raw unit is 1/65536, so a whole number `n` is written `n * 65536`.

use raytracer::linear::Vector;

const ONE: i64 = 65536;

fn close(a: i64, b: f64, tol: f64) {
    let av = (a as f64) / 65536.0;
    assert!(
        (av - b).abs() <= tol,
        "expected about {}, got {} (raw {})",
        b,
        av,
        a
    );
}

#[test]
fn dot() {
    let v1 = Vector::new(ONE, 0, ONE);
    let v2 = Vector::new(0, ONE, 0);
    let d = v1.dot(&v2);
    assert_eq!(0, d);

    let v2 = Vector::new(2 * ONE, 0, 0);
    let d = v1.dot(&v2);
    assert_eq!(2 * ONE, d);
}

#[test]
fn cross() {
    let v1 = Vector::new(ONE, 0, ONE);
    let v2 = Vector::new(-ONE, 0, ONE);
    let v3 = v1.cross(&v2);
    assert_eq!(0, v3.x);
    assert_eq!(-2 * ONE, v3.y);
    assert_eq!(0, v3.z);

    let v2 = Vector::new(0, 3 * ONE, -5 * ONE);
    let v3 = v1.cross(&v2);
    assert_eq!(-3 * ONE, v3.x);
    assert_eq!(5 * ONE, v3.y);
    assert_eq!(3 * ONE, v3.z);
}

#[test]
fn magnitude() {
    let v = Vector::new(0, 0, -9 * ONE);
    assert_eq!(9 * ONE, v.magnitude());

    let v = Vector::new(-6 * ONE, 5 * ONE, -3 * ONE);
    close(v.magnitude(), (70.0f64).sqrt(), 1.0 / 65536.0);
}

#[test]
fn add() {
    let v1 = Vector::new(-5 * ONE, 3 * ONE, -9 * ONE);
    let v2 = Vector::new(-ONE, 0, 6 * ONE);

    let v3 = v1.add(&v2);
    assert_eq!(-6 * ONE, v3.x);
    assert_eq!(3 * ONE, v3.y);
    assert_eq!(-3 * ONE, v3.z);
}

#[test]
fn subtract() {
    let v1 = Vector::new(-5 * ONE, 3 * ONE, -9 * ONE);
    let v2 = Vector::new(-ONE, 0, 6 * ONE);

    let v3 = v1.subtract(&v2);
    assert_eq!(-4 * ONE, v3.x);
    assert_eq!(3 * ONE, v3.y);
    assert_eq!(-15 * ONE, v3.z);
}

#[test]
fn negative() {
    let v1 = Vector::new(-5 * ONE, 3 * ONE, -9 * ONE);
    let v2 = v1.negative();

    assert_eq!(5 * ONE, v2.x);
    assert_eq!(-3 * ONE, v2.y);
    assert_eq!(9 * ONE, v2.z);
}

#[test]
fn scale() {
    let v1 = Vector::new(-5 * ONE, 3 * ONE, -9 * ONE);
    let v2 = v1.scale(-2 * ONE);

    assert_eq!(10 * ONE, v2.x);
    assert_eq!(-6 * ONE, v2.y);
    assert_eq!(18 * ONE, v2.z);
}

#[test]
fn normalize() {
    let v1 = Vector::new(0, -ONE, 0);
    let v2 = v1.normalize();
    assert_eq!(0, v2.x);
    assert_eq!(-ONE, v2.y);
    assert_eq!(0, v2.z);

    let v1 = Vector::new(5 * ONE, -5 * ONE, 5 * ONE);
    let v2 = v1.normalize();
    let unit = 1.0 / (3.0f64).sqrt();
    close(v2.x, unit, 2.0 / 65536.0);
    close(v2.y, -unit, 2.0 / 65536.0);
    close(v2.z, unit, 2.0 / 65536.0);
}

#[test]
fn rotate() {
    // A quarter turn about the vertical axis is exact: the sine and
    // cosine of 90 degrees have exact fixed-point values.
    let v1 = Vector::new(ONE, 0, 0);
    let axis = Vector::new(0, ONE, 0);
    let v2 = v1.rotate(90 * ONE, &axis);
    assert_eq!(0, v2.x);
    assert_eq!(0, v2.y);
    assert_eq!(-ONE, v2.z);

    let v1 = Vector::new(ONE, 0, 0);
    let axis = Vector::new(ONE, ONE, ONE);
    let v2 = v1.rotate(120 * ONE, &axis);
    close(v2.x, 0.0, 0.01);
    close(v2.y, 1.0, 0.01);
    close(v2.z, 0.0, 0.01);

    // Rotation by zero degrees is exact for any vector and axis.
    let v1 = Vector::new(-34 * ONE, 13 * ONE, 124 * ONE);
    let axis = Vector::new(-23 * ONE, 345 * ONE, 24 * ONE);
    let v2 = v1.rotate(0, &axis);
    assert_eq!(v1.x, v2.x);
    assert_eq!(v1.y, v2.y);
    assert_eq!(v1.z, v2.z);
}

#[test]
fn reflect_across() {
    let axis = Vector::new(0, -ONE, 0);
    let v = Vector::new(-2 * ONE, 3 * ONE, -5 * ONE);

    let r = v.reflect_across(&axis);

    assert_eq!(2 * ONE, r.x);
    assert_eq!(3 * ONE, r.y);
    assert_eq!(5 * ONE, r.z);
}

#[test]
fn normalize_magnitude_is_unit() {
    // Any vector at least one unit long normalizes to magnitude one,
    // up to a few raw steps.
    let samples = [
        Vector::new(3 * ONE, 4 * ONE, 0),
        Vector::new(-7 * ONE, 2 * ONE, 9 * ONE),
        Vector::new(ONE, ONE, ONE),
        Vector::new(1000 * ONE, -1, 17),
    ];
    for v in samples.iter() {
        let n = v.normalize();
        let m = n.magnitude();
        assert!(
            (m - ONE).abs() <= 5,
            "normalized magnitude {} strays from one",
            m
        );
    }
}

#[test]
fn cross_antisymmetric_dot_symmetric() {
    let a = Vector::new(3 * ONE, -7 * ONE, ONE / 2);
    let b = Vector::new(-ONE, 11 * ONE, 5 * ONE);
    let ab = a.cross(&b);
    let ba = b.cross(&a);
    assert_eq!(ab.x, -ba.x);
    assert_eq!(ab.y, -ba.y);
    assert_eq!(ab.z, -ba.z);
    assert_eq!(a.dot(&b), b.dot(&a));
}
