use ecdsa_core::curve::{EllipticCurve, Point};
use ecdsa_core::errors::EcError;
use num_bigint::BigUint;

fn big(x: u64) -> BigUint {
    BigUint::from(x)
}

fn affine(x: u64, y: u64) -> Point {
    Point::Affine(big(x), big(y))
}

/// The curve y^2 = x^3 + 2x + 2 over F_17, whose group has order 19.
fn f17_curve() -> EllipticCurve {
    EllipticCurve { a: big(2), b: big(2), p: big(17) }
}

#[test]
fn test_curve_chord_add() {
    let c = f17_curve();
    let r = c.add(&affine(6, 3), &affine(5, 1)).unwrap();
    assert_eq!(r, affine(10, 6));
}

#[test]
fn test_curve_vertical_chord_gives_identity() {
    let c = f17_curve();
    let r = c.add(&affine(5, 16), &affine(5, 1)).unwrap();
    assert_eq!(r, Point::Identity);
}

#[test]
fn test_curve_double() {
    let c = f17_curve();
    let r = c.double(&affine(5, 1)).unwrap();
    assert_eq!(r, affine(6, 3));
}

#[test]
fn test_curve_add_routes_equal_points_to_double() {
    let c = f17_curve();
    let r = c.add(&affine(5, 1), &affine(5, 1)).unwrap();
    assert_eq!(r, affine(6, 3));
}

#[test]
fn test_curve_scalar_mul_one() {
    let c = f17_curve();
    let r = c.scalar_mul(&affine(5, 1), &big(1)).unwrap();
    assert_eq!(r, affine(5, 1));
}

#[test]
fn test_curve_scalar_mul_two() {
    let c = f17_curve();
    let r = c.scalar_mul(&affine(5, 1), &big(2)).unwrap();
    assert_eq!(r, affine(6, 3));
}

#[test]
fn test_curve_scalar_mul_ten() {
    let c = f17_curve();
    let r = c.scalar_mul(&affine(5, 1), &big(10)).unwrap();
    assert_eq!(r, affine(7, 11));
}

#[test]
fn test_curve_scalar_mul_zero_gives_identity() {
    let c = f17_curve();
    let r = c.scalar_mul(&affine(5, 1), &big(0)).unwrap();
    assert_eq!(r, Point::Identity);
}

#[test]
fn test_curve_generator_order() {
    // (5, 1) generates a group of order 19.
    let c = f17_curve();
    let r = c.scalar_mul(&affine(5, 1), &big(19)).unwrap();
    assert_eq!(r, Point::Identity);
}

#[test]
fn test_curve_identity_is_neutral() {
    let c = f17_curve();
    let p = affine(6, 3);
    assert_eq!(c.add(&Point::Identity, &p).unwrap(), p);
    assert_eq!(c.add(&p, &Point::Identity).unwrap(), p);
    assert_eq!(
        c.add(&Point::Identity, &Point::Identity).unwrap(),
        Point::Identity
    );
}

#[test]
fn test_curve_add_commutes() {
    let c = f17_curve();
    let gen = affine(5, 1);
    // every pair of multiples of the generator
    let mut points = vec![Point::Identity];
    for k in 1..19u64 {
        points.push(c.scalar_mul(&gen, &big(k)).unwrap());
    }
    for p in &points {
        for q in &points {
            assert_eq!(c.add(p, q).unwrap(), c.add(q, p).unwrap());
        }
    }
}

#[test]
fn test_curve_results_stay_on_curve() {
    let c = f17_curve();
    let gen = affine(5, 1);
    let mut points = vec![Point::Identity];
    for k in 1..19u64 {
        points.push(c.scalar_mul(&gen, &big(k)).unwrap());
    }
    for p in &points {
        assert!(c.on_curve(p));
        assert!(c.on_curve(&c.double(p).unwrap()));
        for q in &points {
            assert!(c.on_curve(&c.add(p, q).unwrap()));
        }
    }
}

#[test]
fn test_curve_scalar_mul_distributes_over_scalar_sum() {
    let c = f17_curve();
    let gen = affine(5, 1);
    for k1 in 1..10u64 {
        for k2 in 1..10u64 {
            if (k1 + k2) % 19 == 0 {
                continue;
            }
            let lhs = c.scalar_mul(&gen, &big(k1 + k2)).unwrap();
            let a = c.scalar_mul(&gen, &big(k1)).unwrap();
            let b = c.scalar_mul(&gen, &big(k2)).unwrap();
            let rhs = c.add(&a, &b).unwrap();
            assert_eq!(lhs, rhs);
        }
    }
}

#[test]
fn test_curve_on_curve_rejects_off_curve_point() {
    let c = f17_curve();
    assert!(!c.on_curve(&affine(5, 2)));
    assert!(c.on_curve(&Point::Identity));
}

#[test]
fn test_curve_new_accepts_good_parameters() {
    let c = EllipticCurve::new(big(2), big(2), big(17)).unwrap();
    assert!(c.on_curve(&affine(5, 1)));
}

#[test]
fn test_curve_new_rejects_singular_curve() {
    assert!(matches!(
        EllipticCurve::new(big(0), big(0), big(17)),
        Err(EcError::DegenerateCurve)
    ));
}

#[test]
fn test_curve_new_rejects_even_or_tiny_modulus() {
    assert!(matches!(
        EllipticCurve::new(big(2), big(2), big(16)),
        Err(EcError::DegenerateCurve)
    ));
    assert!(matches!(
        EllipticCurve::new(big(0), big(1), big(2)),
        Err(EcError::DegenerateCurve)
    ));
}

#[test]
fn test_curve_new_rejects_unreduced_coefficients() {
    assert!(matches!(
        EllipticCurve::new(big(17), big(2), big(17)),
        Err(EcError::FieldPreconditionViolated)
    ));
}

#[test]
fn test_curve_unreduced_point_reported() {
    let c = f17_curve();
    assert!(matches!(
        c.add(&affine(20, 1), &affine(5, 1)),
        Err(EcError::FieldPreconditionViolated)
    ));
}
