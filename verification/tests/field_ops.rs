use ecdsa_core::errors::EcError;
use ecdsa_core::field;
use num_bigint::BigUint;

fn big(x: u64) -> BigUint {
    BigUint::from(x)
}

#[test]
fn test_field_add_tiny_modulus() {
    let r = field::add(&big(4), &big(10), &big(11)).unwrap();
    assert_eq!(r, big(3));
}

#[test]
fn test_field_mul_modulus_31() {
    let r = field::mul(&big(4), &big(10), &big(31)).unwrap();
    assert_eq!(r, big(9));
}

#[test]
fn test_field_inv_add_31() {
    let r = field::inv_add(&big(4), &big(31)).unwrap();
    assert_eq!(r, big(27));
}

#[test]
fn test_field_inv_mul_31() {
    let r = field::inv_mul(&big(4), &big(31)).unwrap();
    assert_eq!(r, big(8));
}

#[test]
fn test_field_results_lie_in_range() {
    let p = big(11);
    for a in 0..11u64 {
        for b in 0..11u64 {
            let s = field::add(&big(a), &big(b), &p).unwrap();
            let d = field::sub(&big(a), &big(b), &p).unwrap();
            let m = field::mul(&big(a), &big(b), &p).unwrap();
            assert!(s < p && d < p && m < p);
        }
    }
}

#[test]
fn test_field_additive_inverse_cancels() {
    let p = big(11);
    for a in 0..11u64 {
        let ia = field::inv_add(&big(a), &p).unwrap();
        let s = field::add(&big(a), &ia, &p).unwrap();
        assert_eq!(s, big(0));
    }
}

#[test]
fn test_field_multiplicative_inverse_cancels() {
    let p = big(31);
    for a in 1..31u64 {
        let ia = field::inv_mul(&big(a), &p).unwrap();
        let m = field::mul(&big(a), &ia, &p).unwrap();
        assert_eq!(m, big(1));
    }
}

#[test]
fn test_field_sub_wraps() {
    // 3 - 5 mod 11 = 9
    let r = field::sub(&big(3), &big(5), &big(11)).unwrap();
    assert_eq!(r, big(9));
}

#[test]
fn test_field_div() {
    // 9 / 10 mod 31: inv(10) = 28, 9 * 28 = 252 = 4 mod 31
    let r = field::div(&big(9), &big(10), &big(31)).unwrap();
    assert_eq!(r, big(4));
}

#[test]
fn test_field_rejects_unreduced_operand() {
    assert_eq!(
        field::add(&big(12), &big(1), &big(11)),
        Err(EcError::FieldPreconditionViolated)
    );
    assert_eq!(
        field::mul(&big(1), &big(11), &big(11)),
        Err(EcError::FieldPreconditionViolated)
    );
    assert_eq!(
        field::sub(&big(11), &big(1), &big(11)),
        Err(EcError::FieldPreconditionViolated)
    );
}

#[test]
fn test_field_no_inverse_of_zero() {
    assert_eq!(
        field::inv_mul(&big(0), &big(31)),
        Err(EcError::NoMultiplicativeInverse)
    );
    assert_eq!(
        field::div(&big(4), &big(0), &big(31)),
        Err(EcError::NoMultiplicativeInverse)
    );
}
