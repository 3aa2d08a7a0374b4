//! Modular arithmetic over a prime field.
//!
//! Every operation takes the modulus `p` as an explicit argument and
//! demands operands already reduced below `p`; an unreduced operand is
//! reported as `FieldPreconditionViolated`.  The spec functions give the
//! mathematical value of each operation on reduced operands.

use vstd::prelude::*;

use crate::bignum;
use crate::bignum::{nat_of, pow_nat};
use crate::errors::EcError;

verus! {

/// `(a + b) mod p`.
pub open spec fn spec_add(a: nat, b: nat, p: nat) -> nat {
    (a + b) % p
}

/// The additive inverse of a reduced `a`: `p - a` for nonzero `a`, else zero.
pub open spec fn spec_inv_add(a: nat, p: nat) -> nat {
    if 0 < a < p {
        (p - a) as nat
    } else {
        0
    }
}

/// `(a - b) mod p`, written through the additive inverse.
pub open spec fn spec_sub(a: nat, b: nat, p: nat) -> nat {
    spec_add(a, spec_inv_add(b, p), p)
}

/// `(a * b) mod p`.
pub open spec fn spec_mul(a: nat, b: nat, p: nat) -> nat {
    (a * b) % p
}

/// The multiplicative inverse of `a`, computed as `a ^ (p - 2) mod p`.
/// For a prime `p` and nonzero reduced `a` this is the inverse, by
/// Fermat's little theorem.
pub open spec fn spec_inv_mul(a: nat, p: nat) -> nat {
    if p >= 2 {
        pow_nat(a, (p - 2) as nat) % p
    } else {
        0
    }
}

/// `(a + b) mod p`.  Returns a value below `p`; rejects unreduced operands.
pub fn add(
    a: &num_bigint::BigUint,
    b: &num_bigint::BigUint,
    p: &num_bigint::BigUint,
) -> (res: Result<num_bigint::BigUint, EcError>)
    ensures
        res is Ok <==> (nat_of(*a) < nat_of(*p) && nat_of(*b) < nat_of(*p)),
        res matches Ok(v) ==> nat_of(v) == spec_add(nat_of(*a), nat_of(*b), nat_of(*p))
            && nat_of(v) < nat_of(*p),
        res matches Err(e) ==> e == EcError::FieldPreconditionViolated,
{
    if !bignum::lt_big(a, p) {
        return Err(EcError::FieldPreconditionViolated);
    }
    if !bignum::lt_big(b, p) {
        return Err(EcError::FieldPreconditionViolated);
    }
    let s = bignum::add_big(a, b);
    Ok(bignum::rem_big(&s, p))
}

/// The additive inverse modulo `p`: `p - a` for nonzero `a`, else zero.
pub fn inv_add(a: &num_bigint::BigUint, p: &num_bigint::BigUint) -> (res: Result<
    num_bigint::BigUint,
    EcError,
>)
    ensures
        res is Ok <==> nat_of(*a) < nat_of(*p),
        res matches Ok(v) ==> nat_of(v) == spec_inv_add(nat_of(*a), nat_of(*p))
            && nat_of(v) < nat_of(*p),
        res matches Err(e) ==> e == EcError::FieldPreconditionViolated,
{
    if !bignum::lt_big(a, p) {
        return Err(EcError::FieldPreconditionViolated);
    }
    let zero = bignum::from_u64(0);
    if bignum::eq_big(a, &zero) {
        return Ok(zero);
    }
    Ok(bignum::sub_big(p, a))
}

/// `(a - b) mod p`, via the additive inverse of `b`.
pub fn sub(
    a: &num_bigint::BigUint,
    b: &num_bigint::BigUint,
    p: &num_bigint::BigUint,
) -> (res: Result<num_bigint::BigUint, EcError>)
    ensures
        res is Ok <==> (nat_of(*a) < nat_of(*p) && nat_of(*b) < nat_of(*p)),
        res matches Ok(v) ==> nat_of(v) == spec_sub(nat_of(*a), nat_of(*b), nat_of(*p))
            && nat_of(v) < nat_of(*p),
        res matches Err(e) ==> e == EcError::FieldPreconditionViolated,
{
    match crate::field::inv_add(b, p) {
        Err(e) => Err(e),
        Ok(ib) => crate::field::add(a, &ib, p),
    }
}

/// `(a * b) mod p`.  Returns a value below `p`; rejects unreduced operands.
pub fn mul(
    a: &num_bigint::BigUint,
    b: &num_bigint::BigUint,
    p: &num_bigint::BigUint,
) -> (res: Result<num_bigint::BigUint, EcError>)
    ensures
        res is Ok <==> (nat_of(*a) < nat_of(*p) && nat_of(*b) < nat_of(*p)),
        res matches Ok(v) ==> nat_of(v) == spec_mul(nat_of(*a), nat_of(*b), nat_of(*p))
            && nat_of(v) < nat_of(*p),
        res matches Err(e) ==> e == EcError::FieldPreconditionViolated,
{
    if !bignum::lt_big(a, p) {
        return Err(EcError::FieldPreconditionViolated);
    }
    if !bignum::lt_big(b, p) {
        return Err(EcError::FieldPreconditionViolated);
    }
    let m = bignum::mul_big(a, b);
    Ok(bignum::rem_big(&m, p))
}

/// The multiplicative inverse of `a` modulo the prime `p`, by modular
/// exponentiation to `p - 2`.  Inverting zero is refused.
pub fn inv_mul(a: &num_bigint::BigUint, p: &num_bigint::BigUint) -> (res: Result<
    num_bigint::BigUint,
    EcError,
>)
    ensures
        res is Ok <==> (nat_of(*a) < nat_of(*p) && nat_of(*a) != 0),
        res matches Ok(v) ==> nat_of(v) == spec_inv_mul(nat_of(*a), nat_of(*p))
            && nat_of(v) < nat_of(*p),
        res matches Err(e) ==> e == (if nat_of(*a) < nat_of(*p) {
            EcError::NoMultiplicativeInverse
        } else {
            EcError::FieldPreconditionViolated
        }),
{
    if !bignum::lt_big(a, p) {
        return Err(EcError::FieldPreconditionViolated);
    }
    let zero = bignum::from_u64(0);
    if bignum::eq_big(a, &zero) {
        return Err(EcError::NoMultiplicativeInverse);
    }
    let two = bignum::from_u64(2);
    let e = bignum::sub_big(p, &two);
    Ok(bignum::modpow_big(a, &e, p))
}

/// `a / b` in the field: `(a * inv_mul(b, p)) mod p`.  Division by zero is refused.
pub fn div(
    a: &num_bigint::BigUint,
    b: &num_bigint::BigUint,
    p: &num_bigint::BigUint,
) -> (res: Result<num_bigint::BigUint, EcError>)
    ensures
        res is Ok <==> (nat_of(*a) < nat_of(*p) && nat_of(*b) < nat_of(*p) && nat_of(*b) != 0),
        res matches Ok(v) ==> nat_of(v) == spec_mul(
            nat_of(*a),
            spec_inv_mul(nat_of(*b), nat_of(*p)),
            nat_of(*p),
        ) && nat_of(v) < nat_of(*p),
        res matches Err(e) ==> e == (if !(nat_of(*b) < nat_of(*p)) {
            EcError::FieldPreconditionViolated
        } else if nat_of(*b) == 0 {
            EcError::NoMultiplicativeInverse
        } else {
            EcError::FieldPreconditionViolated
        }),
{
    match crate::field::inv_mul(b, p) {
        Err(e) => Err(e),
        Ok(ib) => crate::field::mul(a, &ib, p),
    }
}

/// The plain value of a field difference of reduced operands.
pub proof fn lemma_sub_value(a: nat, b: nat, p: nat)
    requires
        a < p,
        b < p,
    ensures
        spec_sub(a, b, p) == if a >= b {
            (a - b) as nat
        } else {
            (a + p - b) as nat
        },
{
    if b == 0 {
        vstd::arithmetic::div_mod::lemma_small_mod(a, p);
    } else {
        let t = (a + (p - b)) as nat;
        if a >= b {
            vstd::arithmetic::div_mod::lemma_mod_add_multiples_vanish((a - b) as int, p as int);
            vstd::arithmetic::div_mod::lemma_small_mod((a - b) as nat, p);
        } else {
            vstd::arithmetic::div_mod::lemma_small_mod(t, p);
        }
    }
}

/// Swapping the operands of a field difference negates it.
pub proof fn lemma_sub_swap(a: nat, b: nat, p: nat)
    requires
        a < p,
        b < p,
    ensures
        spec_sub(b, a, p) == spec_inv_add(spec_sub(a, b, p), p),
{
    lemma_sub_value(a, b, p);
    lemma_sub_value(b, a, p);
    if a == b {
        lemma_add_inv_add(a, p);
    }
}

/// A field difference of reduced operands is the centered remainder.
pub proof fn lemma_sub_is_mod(a: nat, b: nat, p: nat)
    requires
        a < p,
        b < p,
    ensures
        spec_sub(a, b, p) == ((a as int - b as int) % (p as int)) as nat,
{
    lemma_sub_value(a, b, p);
    if a >= b {
        vstd::arithmetic::div_mod::lemma_small_mod((a - b) as nat, p);
    } else {
        vstd::arithmetic::div_mod::lemma_mod_add_multiples_vanish(a as int - b as int, p as int);
        vstd::arithmetic::div_mod::lemma_small_mod((a + p - b) as nat, p);
    }
}

/// Two successive subtractions of reduced elements commute.
pub proof fn lemma_sub_sub_swap(t: nat, a: nat, b: nat, p: nat)
    requires
        t < p,
        a < p,
        b < p,
    ensures
        spec_sub(spec_sub(t, a, p), b, p) == spec_sub(spec_sub(t, b, p), a, p),
{
    let pi = p as int;
    lemma_sub_is_mod(t, a, p);
    lemma_sub_is_mod(spec_sub(t, a, p), b, p);
    lemma_sub_is_mod(t, b, p);
    lemma_sub_is_mod(spec_sub(t, b, p), a, p);
    vstd::arithmetic::div_mod::lemma_sub_mod_noop(t as int - a as int, b as int, pi);
    vstd::arithmetic::div_mod::lemma_sub_mod_noop(t as int - b as int, a as int, pi);
    vstd::arithmetic::div_mod::lemma_small_mod(a, p);
    vstd::arithmetic::div_mod::lemma_small_mod(b, p);
}

/// The additive inverse is an involution on reduced elements.
pub proof fn lemma_inv_add_twice(x: nat, p: nat)
    requires
        x < p,
    ensures
        spec_inv_add(spec_inv_add(x, p), p) == x,
{
}

/// The ring identity behind `lemma_mul_neg`, with the quotient and
/// remainder as plain parameters.
proof fn lemma_mul_neg_identity(v: int, t: int, p: int, k: int, r: int)
    by (nonlinear_arith)
    requires
        v * t == p * k + r,
        0 < v < p,
    ensures
        (p - v) * t == p * (t - k - 1) + (p - r),
{
}

/// Multiplying by a negated element negates the product.
pub proof fn lemma_mul_neg(v: nat, t: nat, p: nat)
    requires
        0 < v < p,
    ensures
        spec_mul((p - v) as nat, t, p) == spec_inv_add(spec_mul(v, t, p), p),
{
    let pi = p as int;
    let r = (v * t) % p;
    let k = ((v * t) / p) as int;
    vstd::arithmetic::div_mod::lemma_fundamental_div_mod((v * t) as int, pi);
    vstd::arithmetic::div_mod::lemma_mod_bound((v * t) as int, pi);
    lemma_mul_neg_identity(v as int, t as int, pi, k, r as int);
    assert((((p - v) as nat) * t) as int == pi * (t as int - k - 1) + (pi - r));
    if r == 0 {
        assert(pi * (t as int - k - 1) + pi == (t as int - k) * pi) by (nonlinear_arith);
        vstd::arithmetic::div_mod::lemma_mod_multiples_basic(t as int - k, pi);
    } else {
        vstd::arithmetic::div_mod::lemma_mod_multiples_vanish(t as int - k - 1, pi - r, pi);
        vstd::arithmetic::div_mod::lemma_small_mod((p - r) as nat, p);
    }
}

/// Raising a negated element to a power negates the power when the
/// exponent is odd, and restores it when the exponent is even.
pub proof fn lemma_pow_mod_neg(v: nat, e: nat, p: nat)
    requires
        0 < v < p,
    ensures
        pow_nat((p - v) as nat, e) % p == (if e % 2 == 0 {
            pow_nat(v, e) % p
        } else {
            spec_inv_add(pow_nat(v, e) % p, p)
        }),
    decreases e,
{
    let pi = p as int;
    let w = (p - v) as nat;
    if e == 0 {
    } else {
        lemma_pow_mod_neg(v, (e - 1) as nat, p);
        let pw = pow_nat(w, (e - 1) as nat);
        let pv = pow_nat(v, (e - 1) as nat);
        let b = pv % p;
        assert(pow_nat(w, e) == w * pw);
        vstd::arithmetic::div_mod::lemma_mul_mod_noop_right(w as int, pw as int, pi);
        vstd::arithmetic::div_mod::lemma_mul_mod_noop_right(v as int, pv as int, pi);
        vstd::arithmetic::div_mod::lemma_mod_bound(pv as int, pi);
        if (e - 1) % 2 == 0 {
            // pw % p == b, so w * pw lands on the negation of v * pv
            lemma_mul_neg(v, b, p);
            assert(pow_nat(w, e) % p == spec_mul(w, b, p));
            assert(spec_mul(v, b, p) == pow_nat(v, e) % p);
        } else {
            // pw % p == spec_inv_add(b, p)
            if b == 0 {
                assert(pow_nat(w, e) % p == (w * 0) % p);
                vstd::arithmetic::div_mod::lemma_small_mod(0, p);
                assert(pow_nat(v, e) % p == (v * 0) % p);
            } else {
                let nb = (p - b) as nat;
                lemma_mul_neg(v, nb, p);
                assert(pow_nat(w, e) % p == spec_mul(w, nb, p));
                vstd::arithmetic::mul::lemma_mul_is_commutative(v as int, nb as int);
                assert(spec_mul(v, nb, p) == spec_mul(nb, v, p));
                lemma_mul_neg(b, v, p);
                // spec_mul(nb, v, p) == spec_inv_add(spec_mul(b, v, p), p)
                vstd::arithmetic::div_mod::lemma_mod_bound((b * v) as int, pi);
                lemma_inv_add_twice(spec_mul(b, v, p), p);
                vstd::arithmetic::mul::lemma_mul_is_commutative(b as int, v as int);
                assert(spec_mul(b, v, p) == spec_mul(v, b, p));
                assert(spec_mul(v, b, p) == pow_nat(v, e) % p);
            }
        }
    }
}

/// Law: adding the additive inverse of a reduced element gives zero.
pub proof fn lemma_add_inv_add(a: nat, p: nat)
    requires
        a < p,
    ensures
        spec_add(a, spec_inv_add(a, p), p) == 0,
{
    if a == 0 {
        assert((0 + 0) % p == 0) by {
            vstd::arithmetic::div_mod::lemma_small_mod(0, p);
        }
    } else {
        assert(a + (p - a) == p);
        assert(p % p == 0) by {
            vstd::arithmetic::div_mod::lemma_mod_self_0(p as int);
        }
    }
}

} // verus!
