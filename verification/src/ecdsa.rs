//! The ECDSA protocol over a chosen curve, generator and group order.
//!
//! All scalar arithmetic is modulo the group order `q_order`, which is
//! distinct from the field modulus of the curve.  `sign` reports a bad
//! nonce so the caller can retry with a fresh one; `verification` never
//! fails, it returns false on any precondition violation or degenerate
//! intermediate value.

use vstd::prelude::*;

use crate::bignum;
use crate::bignum::nat_of;
use crate::curve::{reduced, spec_ec_add, spec_on_curve, spec_scalar_mul};
use crate::curve::{CurveVal, EllipticCurve, Point, PointVal};
use crate::errors::EcError;
use crate::field;
use crate::hashing;
use crate::randomness;

verus! {

/// A signer: curve parameters, generator point, and the generator's order.
pub struct ECDSA {
    pub elliptic_curve: EllipticCurve,
    pub a_gen: Point,
    pub q_order: num_bigint::BigUint,
}

/// The value of a signing result: the scalar pair, or the error.
pub open spec fn signature_view(
    res: Result<(num_bigint::BigUint, num_bigint::BigUint), EcError>,
) -> Result<(nat, nat), EcError> {
    match res {
        Ok(p) => Ok((nat_of(p.0), nat_of(p.1))),
        Err(e) => Err(e),
    }
}

/// What signing hash `h` under key `d` with nonce `k` yields: the pair
/// (r, s) with r the x-coordinate of k times the generator reduced mod q
/// and s = (h + r*d) / k mod q, or the error that rejects the attempt.
pub open spec fn spec_sign(
    c: CurveVal,
    gen: PointVal,
    q: nat,
    h: nat,
    d: nat,
    k: nat,
) -> Result<(nat, nat), EcError> {
    if !(0 < h < q && 0 < d < q && 0 < k < q) {
        Err(EcError::ScalarOutOfRange)
    } else {
        match spec_scalar_mul(c, gen, k) {
            PointVal::Infinity => Err(EcError::BadNonce),
            PointVal::Affine(x, _) => {
                let r = x % q;
                if r == 0 {
                    Err(EcError::BadNonce)
                } else {
                    let s = field::spec_mul(
                        field::spec_add(field::spec_mul(r, d, q), h, q),
                        field::spec_inv_mul(k, q),
                        q,
                    );
                    if s == 0 {
                        Err(EcError::BadNonce)
                    } else {
                        Ok((r, s))
                    }
                }
            },
        }
    }
}

/// What verifying hash `h` against public key `pubk` and signature (r, s)
/// yields: false on any out-of-range scalar or invalid point, otherwise
/// whether the x-coordinate of (h/s) * gen + (r/s) * pubk equals r mod q.
pub open spec fn spec_verify(
    c: CurveVal,
    gen: PointVal,
    q: nat,
    h: nat,
    pubk: PointVal,
    r: nat,
    s: nat,
) -> bool {
    if !(0 < h < q && 0 < r < q && 0 < s < q) {
        false
    } else if !(pubk is Affine && reduced(pubk, c.p) && spec_on_curve(c, pubk)) {
        false
    } else {
        let w = field::spec_inv_mul(s, q);
        let u1 = field::spec_mul(w, h, q);
        let u2 = field::spec_mul(w, r, q);
        let x_pt = spec_ec_add(c, spec_scalar_mul(c, gen, u1), spec_scalar_mul(c, pubk, u2));
        match x_pt {
            PointVal::Infinity => false,
            PointVal::Affine(x, _) => x % q == r,
        }
    }
}

impl ECDSA {
    /// What a verified caller must supply: a well-formed curve, a
    /// generator with reduced coordinates, and a group order of at least two.
    pub open spec fn wf(&self) -> bool {
        self.elliptic_curve.wf() && reduced(self.a_gen@, self.elliptic_curve@.p) && nat_of(
            self.q_order,
        ) >= 2
    }

    /// A one-shot check of the signer's generator: it must be an affine
    /// point with reduced coordinates that lies on the curve.
    pub fn self_check(&self) -> (res: Result<(), EcError>)
        ensures
            res is Ok <==> (self.a_gen@ is Affine && reduced(self.a_gen@, self.elliptic_curve@.p)
                && spec_on_curve(self.elliptic_curve@, self.a_gen@)),
            res matches Err(e) ==> e == EcError::PointNotOnCurve,
    {
        match &self.a_gen {
            Point::Identity => Err(EcError::PointNotOnCurve),
            Point::Affine(px, py) => {
                if !bignum::lt_big(px, &self.elliptic_curve.p) || !bignum::lt_big(
                    py,
                    &self.elliptic_curve.p,
                ) {
                    return Err(EcError::PointNotOnCurve);
                }
                if !self.elliptic_curve.on_curve(&self.a_gen) {
                    return Err(EcError::PointNotOnCurve);
                }
                Ok(())
            },
        }
    }

    /// A uniform random value in [1, max), from the outside generator.
    pub fn generate_random_number_less_than(&self, max: &num_bigint::BigUint) -> (res:
        num_bigint::BigUint)
        requires
            nat_of(*max) > 1,
        ensures
            1 <= nat_of(res) < nat_of(*max),
    {
        let mut rng = randomness::fresh_rng();
        let one = bignum::from_u64(1);
        randomness::sample_range(&mut rng, &one, max)
    }

    /// A fresh private scalar: uniform in [1, q_order - 1].
    pub fn generate_priv_key(&self) -> (res: num_bigint::BigUint)
        requires
            self.wf(),
        ensures
            1 <= nat_of(res) < nat_of(self.q_order),
    {
        self.generate_random_number_less_than(&self.q_order)
    }

    /// The public point d * A for a private scalar d.
    pub fn generate_pub_key(&self, priv_key: &num_bigint::BigUint) -> (res: Point)
        requires
            self.wf(),
        ensures
            res@ == spec_scalar_mul(self.elliptic_curve@, self.a_gen@, nat_of(*priv_key)),
            reduced(res@, self.elliptic_curve@.p),
    {
        match self.elliptic_curve.scalar_mul(&self.a_gen, priv_key) {
            Ok(p) => p,
            Err(_) => {
                proof {
                    assert(false);
                }
                Point::Identity
            },
        }
    }

    /// A key pair (d, B): a fresh private scalar d in [1, q_order - 1]
    /// and its public point B = d * A.
    pub fn generate_key_pair(&self) -> (res: (num_bigint::BigUint, Point))
        requires
            self.wf(),
        ensures
            1 <= nat_of(res.0) < nat_of(self.q_order),
            res.1@ == spec_scalar_mul(self.elliptic_curve@, self.a_gen@, nat_of(res.0)),
            reduced(res.1@, self.elliptic_curve@.p),
    {
        let priv_key = self.generate_priv_key();
        let pub_key = self.generate_pub_key(&priv_key);
        (priv_key, pub_key)
    }

    /// Signs a reduced hash under a private key with a caller-chosen
    /// nonce, returning exactly what `spec_sign` describes.
    pub fn sign(
        &self,
        hash: &num_bigint::BigUint,
        priv_key: &num_bigint::BigUint,
        k_random: &num_bigint::BigUint,
    ) -> (res: Result<(num_bigint::BigUint, num_bigint::BigUint), EcError>)
        requires
            self.wf(),
        ensures
            signature_view(res) == spec_sign(
                self.elliptic_curve@,
                self.a_gen@,
                nat_of(self.q_order),
                nat_of(*hash),
                nat_of(*priv_key),
                nat_of(*k_random),
            ),
            res matches Ok(p) ==> 0 < nat_of(p.0) < nat_of(self.q_order) && 0 < nat_of(p.1)
                < nat_of(self.q_order),
    {
        let zero = bignum::from_u64(0);
        if bignum::eq_big(hash, &zero) || !bignum::lt_big(hash, &self.q_order) {
            return Err(EcError::ScalarOutOfRange);
        }
        if bignum::eq_big(priv_key, &zero) || !bignum::lt_big(priv_key, &self.q_order) {
            return Err(EcError::ScalarOutOfRange);
        }
        if bignum::eq_big(k_random, &zero) || !bignum::lt_big(k_random, &self.q_order) {
            return Err(EcError::ScalarOutOfRange);
        }
        let r_point = match self.elliptic_curve.scalar_mul(&self.a_gen, k_random) {
            Ok(p) => p,
            Err(_) => {
                proof {
                    assert(false);
                }
                Point::Identity
            },
        };
        match r_point {
            Point::Identity => Err(EcError::BadNonce),
            Point::Affine(x, _) => {
                let r = bignum::rem_big(&x, &self.q_order);
                if bignum::eq_big(&r, &zero) {
                    return Err(EcError::BadNonce);
                }
                let s1 = match field::mul(&r, priv_key, &self.q_order) {
                    Ok(v) => v,
                    Err(_) => {
                        proof {
                            assert(false);
                        }
                        return Err(EcError::BadNonce);
                    },
                };
                let s2 = match field::add(&s1, hash, &self.q_order) {
                    Ok(v) => v,
                    Err(_) => {
                        proof {
                            assert(false);
                        }
                        return Err(EcError::BadNonce);
                    },
                };
                let k_inv = match field::inv_mul(k_random, &self.q_order) {
                    Ok(v) => v,
                    Err(_) => {
                        proof {
                            assert(false);
                        }
                        return Err(EcError::BadNonce);
                    },
                };
                let s = match field::mul(&s2, &k_inv, &self.q_order) {
                    Ok(v) => v,
                    Err(_) => {
                        proof {
                            assert(false);
                        }
                        return Err(EcError::BadNonce);
                    },
                };
                if bignum::eq_big(&s, &zero) {
                    return Err(EcError::BadNonce);
                }
                Ok((r, s))
            },
        }
    }

    /// Checks a signature, returning exactly what `spec_verify` describes;
    /// it never fails, every violated precondition yields false.
    pub fn verification(
        &self,
        hash: &num_bigint::BigUint,
        pub_key: &Point,
        signature: &(num_bigint::BigUint, num_bigint::BigUint),
    ) -> (res: bool)
        requires
            self.wf(),
        ensures
            res == spec_verify(
                self.elliptic_curve@,
                self.a_gen@,
                nat_of(self.q_order),
                nat_of(*hash),
                pub_key@,
                nat_of(signature.0),
                nat_of(signature.1),
            ),
    {
        let r = &signature.0;
        let s = &signature.1;
        let zero = bignum::from_u64(0);
        if bignum::eq_big(hash, &zero) || !bignum::lt_big(hash, &self.q_order) {
            return false;
        }
        if bignum::eq_big(r, &zero) || !bignum::lt_big(r, &self.q_order) {
            return false;
        }
        if bignum::eq_big(s, &zero) || !bignum::lt_big(s, &self.q_order) {
            return false;
        }
        match pub_key {
            Point::Identity => {
                return false;
            },
            Point::Affine(px, py) => {
                if !bignum::lt_big(px, &self.elliptic_curve.p) || !bignum::lt_big(
                    py,
                    &self.elliptic_curve.p,
                ) {
                    return false;
                }
            },
        }
        if !self.elliptic_curve.on_curve(pub_key) {
            return false;
        }
        let w = match field::inv_mul(s, &self.q_order) {
            Ok(v) => v,
            Err(_) => {
                proof {
                    assert(false);
                }
                return false;
            },
        };
        let u1 = match field::mul(&w, hash, &self.q_order) {
            Ok(v) => v,
            Err(_) => {
                proof {
                    assert(false);
                }
                return false;
            },
        };
        let u2 = match field::mul(&w, r, &self.q_order) {
            Ok(v) => v,
            Err(_) => {
                proof {
                    assert(false);
                }
                return false;
            },
        };
        let u1a = match self.elliptic_curve.scalar_mul(&self.a_gen, &u1) {
            Ok(p) => p,
            Err(_) => {
                proof {
                    assert(false);
                }
                return false;
            },
        };
        let u2b = match self.elliptic_curve.scalar_mul(pub_key, &u2) {
            Ok(p) => p,
            Err(_) => {
                proof {
                    assert(false);
                }
                return false;
            },
        };
        let x_pt = match self.elliptic_curve.add(&u1a, &u2b) {
            Ok(p) => p,
            Err(_) => {
                proof {
                    assert(false);
                }
                return false;
            },
        };
        match x_pt {
            Point::Identity => false,
            Point::Affine(xx, _) => {
                let xr = bignum::rem_big(&xx, &self.q_order);
                bignum::eq_big(&xr, r)
            },
        }
    }

    /// Reduces a message to a scalar in [1, max - 1]: the SHA-256 digest,
    /// read as a big-endian integer, taken modulo max - 1, plus one.
    pub fn generate_hash_less_than(&self, message: &str, max: &num_bigint::BigUint) -> (res:
        num_bigint::BigUint)
        requires
            nat_of(*max) >= 2,
        ensures
            nat_of(res) == hashing::spec_message_scalar(message@, nat_of(*max)),
            1 <= nat_of(res) < nat_of(*max),
    {
        let dg = hashing::sha_digest(message);
        let bytes = hashing::hex_decode(dg.as_str());
        let h0 = bignum::from_bytes_be(&bytes);
        let one = bignum::from_u64(1);
        let qm1 = bignum::sub_big(max, &one);
        let hm = bignum::rem_big(&h0, &qm1);
        bignum::add_big(&hm, &one)
    }
}

} // verus!
