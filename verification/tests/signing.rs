use ecdsa_core::curve::{EllipticCurve, Point};
use ecdsa_core::ecdsa::ECDSA;
use ecdsa_core::errors::EcError;
use num_bigint::BigUint;

fn big(x: u64) -> BigUint {
    BigUint::from(x)
}

/// The signing fixture: y^2 = x^3 + 2x + 2 over F_17, generator (5, 1) of order 19.
fn f17_signer() -> ECDSA {
    let elliptic_curve = EllipticCurve {
        a: BigUint::from(2u32),
        b: BigUint::from(2u32),
        p: BigUint::from(17u32),
    };
    let a_gen = Point::Affine(BigUint::from(5u32), BigUint::from(1u32));
    let q_order = BigUint::from(19u32);
    ECDSA { elliptic_curve, a_gen, q_order }
}

#[test]
fn test_sign_verify() {
    let ecdsa = f17_signer();

    let priv_key = BigUint::from(7u32);
    let pub_key = ecdsa.generate_pub_key(&priv_key);

    let k_random = BigUint::from(18u32);

    let message = "Bob -> 1 BTC -> Alice";
    let hash = ecdsa.generate_hash_less_than(message, &ecdsa.q_order);

    let signature = ecdsa.sign(&hash, &priv_key, &k_random).unwrap();
    let verify_result = ecdsa.verification(&hash, &pub_key, &signature);

    assert!(verify_result, "Verification should sucess");
}

#[test]
fn test_sign_verify_tempered_message() {
    let ecdsa = f17_signer();

    let priv_key = BigUint::from(7u32);
    let pub_key = ecdsa.generate_pub_key(&priv_key);

    let k_random = BigUint::from(18u32);

    let message = "Bob -> 1 BTC -> Alice";
    let hash = ecdsa.generate_hash_less_than(message, &ecdsa.q_order);
    let signature = ecdsa.sign(&hash, &priv_key, &k_random).unwrap();

    let message = "Bob -> 2 BTC -> Alice";
    let hash = ecdsa.generate_hash_less_than(message, &ecdsa.q_order);
    let verify_result = ecdsa.verification(&hash, &pub_key, &signature);

    assert!(!verify_result, "Verification should fail");
}

#[test]
fn test_sign_verify_tempered_signature() {
    let ecdsa = f17_signer();

    let priv_key = BigUint::from(7u32);
    let pub_key = ecdsa.generate_pub_key(&priv_key);

    let k_random = BigUint::from(4u32);

    let message = "Bob -> 1 BTC -> Alice";
    let hash = ecdsa.generate_hash_less_than(message, &ecdsa.q_order);
    let signature = ecdsa.sign(&hash, &priv_key, &k_random).unwrap();
    let (r, s) = signature;
    let tempered_siganture = (
        (r + BigUint::from(1u32)).modpow(&BigUint::from(1u32), &ecdsa.q_order),
        s,
    );

    let verify_result = ecdsa.verification(&hash, &pub_key, &tempered_siganture);

    assert!(!verify_result, "Verification should fail");
}

#[test]
fn test_sign_verify_tampered_s() {
    let ecdsa = f17_signer();

    let priv_key = big(7);
    let pub_key = ecdsa.generate_pub_key(&priv_key);

    let message = "Bob -> 1 BTC -> Alice";
    let hash = ecdsa.generate_hash_less_than(message, &ecdsa.q_order);
    let (r, s) = ecdsa.sign(&hash, &priv_key, &big(4)).unwrap();
    let tampered = (r, (s + big(1)) % &ecdsa.q_order);

    assert!(!ecdsa.verification(&hash, &pub_key, &tampered));
}

#[test]
fn test_sign_rejects_out_of_range_scalars() {
    let ecdsa = f17_signer();
    let h = big(5);
    let d = big(7);
    let k = big(4);
    assert_eq!(
        ecdsa.sign(&big(0), &d, &k),
        Err(EcError::ScalarOutOfRange)
    );
    assert_eq!(
        ecdsa.sign(&big(19), &d, &k),
        Err(EcError::ScalarOutOfRange)
    );
    assert_eq!(
        ecdsa.sign(&h, &big(0), &k),
        Err(EcError::ScalarOutOfRange)
    );
    assert_eq!(
        ecdsa.sign(&h, &d, &big(19)),
        Err(EcError::ScalarOutOfRange)
    );
}

#[test]
fn test_sign_reports_bad_nonce_when_s_vanishes() {
    // With k = 1, r = 5; choosing h = 3, d = 7 makes h + r*d = 38 = 0 mod 19.
    let ecdsa = f17_signer();
    assert_eq!(
        ecdsa.sign(&big(3), &big(7), &big(1)),
        Err(EcError::BadNonce)
    );
}

#[test]
fn test_verify_rejects_out_of_range_inputs() {
    let ecdsa = f17_signer();
    let priv_key = big(7);
    let pub_key = ecdsa.generate_pub_key(&priv_key);
    let hash = big(5);
    assert!(!ecdsa.verification(&hash, &pub_key, &(big(0), big(3))));
    assert!(!ecdsa.verification(&hash, &pub_key, &(big(3), big(0))));
    assert!(!ecdsa.verification(&hash, &pub_key, &(big(19), big(3))));
    assert!(!ecdsa.verification(&big(0), &pub_key, &(big(3), big(3))));
}

#[test]
fn test_verify_rejects_bad_public_point() {
    let ecdsa = f17_signer();
    let hash = big(5);
    let sig = (big(3), big(3));
    assert!(!ecdsa.verification(&hash, &Point::Identity, &sig));
    let off_curve = Point::Affine(big(5), big(2));
    assert!(!ecdsa.verification(&hash, &off_curve, &sig));
}

#[test]
fn test_self_check() {
    let ecdsa = f17_signer();
    assert_eq!(ecdsa.self_check(), Ok(()));

    let bad = ECDSA {
        elliptic_curve: EllipticCurve { a: big(2), b: big(2), p: big(17) },
        a_gen: Point::Affine(big(5), big(2)),
        q_order: big(19),
    };
    assert_eq!(bad.self_check(), Err(EcError::PointNotOnCurve));

    let identity_gen = ECDSA {
        elliptic_curve: EllipticCurve { a: big(2), b: big(2), p: big(17) },
        a_gen: Point::Identity,
        q_order: big(19),
    };
    assert_eq!(identity_gen.self_check(), Err(EcError::PointNotOnCurve));
}

#[test]
fn test_hash_lies_in_range_and_is_deterministic() {
    let ecdsa = f17_signer();
    let h1 = ecdsa.generate_hash_less_than("Bob -> 1 BTC -> Alice", &ecdsa.q_order);
    let h2 = ecdsa.generate_hash_less_than("Bob -> 1 BTC -> Alice", &ecdsa.q_order);
    assert_eq!(h1, h2);
    assert!(h1 >= big(1) && h1 < big(19));
    let h3 = ecdsa.generate_hash_less_than("Bob -> 2 BTC -> Alice", &ecdsa.q_order);
    assert!(h3 >= big(1) && h3 < big(19));
}

#[test]
fn test_generated_key_pair_signs_and_verifies() {
    let ecdsa = f17_signer();
    let (priv_key, pub_key) = ecdsa.generate_key_pair();
    assert!(priv_key >= big(1) && priv_key < big(19));
    assert!(ecdsa.elliptic_curve.on_curve(&pub_key));
    assert_eq!(pub_key, ecdsa.generate_pub_key(&priv_key));

    let hash = ecdsa.generate_hash_less_than("Bob -> 1 BTC -> Alice", &ecdsa.q_order);
    let k_random = ecdsa.generate_random_number_less_than(&ecdsa.q_order);
    match ecdsa.sign(&hash, &priv_key, &k_random) {
        Ok(signature) => {
            assert!(ecdsa.verification(&hash, &pub_key, &signature));
        }
        Err(EcError::BadNonce) => {
            // a degenerate nonce is possible on this tiny group; the caller retries
        }
        Err(e) => panic!("unexpected signing failure: {:?}", e),
    }
}

#[test]
fn test_secp256k1_generator_has_documented_order() {
    let p = BigUint::parse_bytes(
        b"FFFFFFFFFFFFFFFFFFFFFFFFFFFFFFFFFFFFFFFFFFFFFFFFFFFFFFFEFFFFFC2F",
        16,
    )
    .unwrap();
    let gx = BigUint::parse_bytes(
        b"79BE667EF9DCBBAC55A06295CE870B07029BFCDB2DCE28D959F2815B16F81798",
        16,
    )
    .unwrap();
    let gy = BigUint::parse_bytes(
        b"483ADA7726A3C4655DA4FBFC0E1108A8FD17B448A68554199C47D08FFB10D4B8",
        16,
    )
    .unwrap();
    let q = BigUint::parse_bytes(
        b"FFFFFFFFFFFFFFFFFFFFFFFFFFFFFFFEBAAEDCE6AF48A03BBFD25E8CD0364141",
        16,
    )
    .unwrap();
    let curve = EllipticCurve { a: big(0), b: big(7), p };
    let a_gen = Point::Affine(gx, gy);
    assert!(curve.on_curve(&a_gen));
    let r = curve.scalar_mul(&a_gen, &q).unwrap();
    assert_eq!(r, Point::Identity);
}
