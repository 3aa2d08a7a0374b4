//! The elliptic curve group for y^2 = x^3 + a*x + b over a prime field.
//!
//! A point is either the identity (the point at infinity) or an affine
//! pair of reduced coordinates.  The group law is the affine chord and
//! tangent law with every case split explicit; adding a point to itself
//! routes to doubling, so scalar multiplication never has to branch on
//! coinciding operands.

use vstd::prelude::*;

use crate::bignum;
use crate::bignum::{nat_of, pow_nat};
use crate::errors::EcError;
use crate::field;

verus! {

/// A curve point: the group identity, or affine coordinates.
#[derive(Debug)]
pub enum Point {
    Identity,
    Affine(num_bigint::BigUint, num_bigint::BigUint),
}

/// The mathematical value of a curve point.
pub enum PointVal {
    Infinity,
    Affine(nat, nat),
}

impl View for Point {
    type V = PointVal;

    open spec fn view(&self) -> PointVal {
        match self {
            Point::Identity => PointVal::Infinity,
            Point::Affine(x, y) => PointVal::Affine(nat_of(*x), nat_of(*y)),
        }
    }
}

impl Clone for Point {
    fn clone(&self) -> (r: Point)
        ensures
            r@ == self@,
    {
        match self {
            Point::Identity => Point::Identity,
            Point::Affine(x, y) => Point::Affine(bignum::clone_big(x), bignum::clone_big(y)),
        }
    }
}

impl PartialEq for Point {
    fn eq(&self, other: &Point) -> (r: bool) {
        match (self, other) {
            (Point::Identity, Point::Identity) => true,
            (Point::Affine(x1, y1), Point::Affine(x2, y2)) => bignum::eq_big(x1, x2)
                && bignum::eq_big(y1, y2),
            _ => false,
        }
    }
}

impl vstd::std_specs::cmp::PartialEqSpecImpl for Point {
    open spec fn obeys_eq_spec() -> bool {
        true
    }

    open spec fn eq_spec(&self, other: &Point) -> bool {
        self@ == other@
    }
}

/// The curve parameters (a, b, p).
pub struct EllipticCurve {
    pub a: num_bigint::BigUint,
    pub b: num_bigint::BigUint,
    pub p: num_bigint::BigUint,
}

/// The mathematical value of the curve parameters.
pub struct CurveVal {
    pub a: nat,
    pub b: nat,
    pub p: nat,
}

impl View for EllipticCurve {
    type V = CurveVal;

    open spec fn view(&self) -> CurveVal {
        CurveVal { a: nat_of(self.a), b: nat_of(self.b), p: nat_of(self.p) }
    }
}

/// Whether a point value has both coordinates reduced below `p`.
pub open spec fn reduced(pt: PointVal, p: nat) -> bool {
    match pt {
        PointVal::Infinity => true,
        PointVal::Affine(x, y) => x < p && y < p,
    }
}

/// Whether a point value satisfies the curve equation y^2 = x^3 + a*x + b over F_p.
pub open spec fn spec_on_curve(c: CurveVal, pt: PointVal) -> bool {
    match pt {
        PointVal::Infinity => true,
        PointVal::Affine(x, y) => c.p > 0 && (y * y) % c.p == (x * x * x + c.a * x + c.b) % c.p,
    }
}

/// The tangent law: the double of a point.
pub open spec fn spec_double(c: CurveVal, pt: PointVal) -> PointVal {
    match pt {
        PointVal::Infinity => PointVal::Infinity,
        PointVal::Affine(x, y) => if y == 0 {
            PointVal::Infinity
        } else {
            let xx = field::spec_mul(x, x, c.p);
            let num = field::spec_add(
                field::spec_add(field::spec_add(xx, xx, c.p), xx, c.p),
                c.a,
                c.p,
            );
            let den = field::spec_add(y, y, c.p);
            let s = field::spec_mul(num, field::spec_inv_mul(den, c.p), c.p);
            let x3 = field::spec_sub(field::spec_sub(field::spec_mul(s, s, c.p), x, c.p), x, c.p);
            let y3 = field::spec_sub(field::spec_mul(s, field::spec_sub(x, x3, c.p), c.p), y, c.p);
            PointVal::Affine(x3, y3)
        },
    }
}

/// The chord-and-tangent group law.  Coinciding operands route to the
/// tangent law; a vertical chord gives the identity.
pub open spec fn spec_ec_add(c: CurveVal, p1: PointVal, p2: PointVal) -> PointVal {
    match (p1, p2) {
        (PointVal::Infinity, q) => q,
        (q, PointVal::Infinity) => q,
        (PointVal::Affine(x1, y1), PointVal::Affine(x2, y2)) => if x1 == x2 {
            if field::spec_add(y1, y2, c.p) == 0 {
                PointVal::Infinity
            } else {
                spec_double(c, p1)
            }
        } else {
            let s = field::spec_mul(
                field::spec_sub(y2, y1, c.p),
                field::spec_inv_mul(field::spec_sub(x2, x1, c.p), c.p),
                c.p,
            );
            let x3 = field::spec_sub(field::spec_sub(field::spec_mul(s, s, c.p), x1, c.p), x2, c.p);
            let y3 = field::spec_sub(field::spec_mul(s, field::spec_sub(x1, x3, c.p), c.p), y1, c.p);
            PointVal::Affine(x3, y3)
        },
    }
}

/// `k` times a point, by most-significant-bit-first double and add over
/// the binary expansion of `k`.
pub open spec fn spec_scalar_mul(c: CurveVal, pt: PointVal, k: nat) -> PointVal
    decreases k,
{
    if k == 0 {
        PointVal::Infinity
    } else {
        let d = spec_double(c, spec_scalar_mul(c, pt, k / 2));
        if k % 2 == 1 {
            spec_ec_add(c, d, pt)
        } else {
            d
        }
    }
}

/// Whether the short Weierstrass parameters describe a singular curve.
pub open spec fn spec_singular(c: CurveVal) -> bool {
    (4 * (c.a * c.a * c.a) + 27 * (c.b * c.b)) % c.p == 0
}

/// Two to any power is positive.
proof fn lemma_pow2_pos(e: nat)
    ensures
        pow_nat(2, e) >= 1,
    decreases e,
{
    if e > 0 {
        lemma_pow2_pos((e - 1) as nat);
    }
}

/// The field difference of distinct reduced elements is nonzero.
proof fn lemma_sub_nonzero(lo: nat, hi: nat, p: nat)
    requires
        lo < p,
        hi < p,
        lo != hi,
    ensures
        field::spec_sub(hi, lo, p) != 0,
{
    if lo == 0 {
        vstd::arithmetic::div_mod::lemma_small_mod(hi, p);
    } else {
        let t = (hi + (p - lo)) as nat;
        if hi < lo {
            vstd::arithmetic::div_mod::lemma_small_mod(t, p);
        } else {
            vstd::arithmetic::div_mod::lemma_mod_add_multiples_vanish((hi - lo) as int, p as int);
            vstd::arithmetic::div_mod::lemma_small_mod((hi - lo) as nat, p);
        }
    }
}

/// For an odd modulus, twice a nonzero reduced element stays nonzero.
proof fn lemma_double_nonzero(y: nat, p: nat)
    requires
        0 < y < p,
        p % 2 == 1,
    ensures
        field::spec_add(y, y, p) != 0,
{
    let t = (y + y) as nat;
    if t < p {
        vstd::arithmetic::div_mod::lemma_small_mod(t, p);
    } else {
        vstd::arithmetic::div_mod::lemma_mod_add_multiples_vanish((t - p) as int, p as int);
        vstd::arithmetic::div_mod::lemma_small_mod((t - p) as nat, p);
        if t == p {
            assert(p == 2 * y);
            assert(p % 2 == 0) by {
                vstd::arithmetic::div_mod::lemma_mod_multiples_basic(y as int, 2);
            }
        }
    }
}

/// Law: a point returned by doubling keeps both coordinates in [0, p - 1],
/// the invariant every curve operation maintains.
pub proof fn lemma_double_reduced(c: CurveVal, pt: PointVal)
    requires
        c.p > 0,
        reduced(pt, c.p),
    ensures
        reduced(spec_double(c, pt), c.p),
{
}

/// Law: the group law keeps both coordinates in [0, p - 1] when applied
/// to points that satisfy that invariant.
pub proof fn lemma_add_reduced(c: CurveVal, p1: PointVal, p2: PointVal)
    requires
        c.p > 0,
        reduced(p1, c.p),
        reduced(p2, c.p),
    ensures
        reduced(spec_ec_add(c, p1, p2), c.p),
{
    lemma_double_reduced(c, p1);
}

/// Law: every scalar multiple of a point with coordinates in [0, p - 1]
/// keeps its coordinates in [0, p - 1].
pub proof fn lemma_scalar_mul_reduced(c: CurveVal, pt: PointVal, k: nat)
    requires
        c.p > 0,
        reduced(pt, c.p),
    ensures
        reduced(spec_scalar_mul(c, pt, k), c.p),
    decreases k,
{
    if k > 0 {
        lemma_scalar_mul_reduced(c, pt, k / 2);
        lemma_double_reduced(c, spec_scalar_mul(c, pt, k / 2));
        lemma_add_reduced(c, spec_double(c, spec_scalar_mul(c, pt, k / 2)), pt);
    }
}

/// Law: the identity is neutral for the group law, on either side.
pub proof fn lemma_add_identity_neutral(c: CurveVal, pt: PointVal)
    ensures
        spec_ec_add(c, PointVal::Infinity, pt) == pt,
        spec_ec_add(c, pt, PointVal::Infinity) == pt,
{
}

/// Law: the group law is commutative when either operand is the identity,
/// when the operands coincide, and on a vertical chord.  (On a proper
/// chord the law is also commutative, but that rests on Fermat's little
/// theorem, which is not proved here.)
pub proof fn lemma_add_commutes_special(c: CurveVal, p1: PointVal, p2: PointVal)
    requires
        match (p1, p2) {
            (PointVal::Affine(x1, y1), PointVal::Affine(x2, y2)) => x1 == x2 && (y1 == y2
                || field::spec_add(y1, y2, c.p) == 0),
            _ => true,
        },
    ensures
        spec_ec_add(c, p1, p2) == spec_ec_add(c, p2, p1),
{
}

/// Law: on a proper chord (distinct x-coordinates) the group law is
/// commutative in the x-coordinate of the result: the two operand orders
/// compute negated slopes, whose squares coincide.  (Equality of the
/// y-coordinates as well rests on Fermat's little theorem, which is not
/// proved here.)
pub proof fn lemma_add_chord_x_commutes(c: CurveVal, p1: PointVal, p2: PointVal)
    requires
        c.p >= 3,
        c.p % 2 == 1,
        p1 is Affine,
        p2 is Affine,
        reduced(p1, c.p),
        reduced(p2, c.p),
        p1->Affine_0 != p2->Affine_0,
    ensures
        match (spec_ec_add(c, p1, p2), spec_ec_add(c, p2, p1)) {
            (PointVal::Affine(xa, _), PointVal::Affine(xb, _)) => xa == xb,
            _ => false,
        },
{
    let p = c.p;
    let x1 = p1->Affine_0;
    let y1 = p1->Affine_1;
    let x2 = p2->Affine_0;
    let y2 = p2->Affine_1;
    let u = field::spec_sub(y2, y1, p);
    let v = field::spec_sub(x2, x1, p);
    let ur = field::spec_sub(y1, y2, p);
    let vr = field::spec_sub(x1, x2, p);
    lemma_sub_nonzero(x1, x2, p);
    lemma_sub_nonzero(x2, x1, p);
    assert(v != 0 && vr != 0);
    field::lemma_sub_swap(y2, y1, p);
    field::lemma_sub_swap(x2, x1, p);
    assert(u < p && v < p && ur < p && vr < p);
    // the reversed differences are the negations of the forward ones
    assert(ur == field::spec_inv_add(u, p));
    assert(vr == (p - v) as nat);
    // the reversed slope equals the forward slope: both negations cancel
    let fv = field::spec_inv_mul(v, p);
    let fvr = field::spec_inv_mul(vr, p);
    field::lemma_pow_mod_neg(v, (p - 2) as nat, p);
    assert(fvr == field::spec_inv_add(fv, p));
    let s = field::spec_mul(u, fv, p);
    let sr = field::spec_mul(ur, fvr, p);
    assert(fv < p) by {
        vstd::arithmetic::div_mod::lemma_mod_bound(
            crate::bignum::pow_nat(v, (p - 2) as nat) as int,
            p as int,
        );
    }
    if u == 0 {
        assert(ur == 0);
        assert(s == (0 * fv) % p);
        assert(sr == (0 * fvr) % p);
        vstd::arithmetic::div_mod::lemma_small_mod(0, p);
        assert(s == 0 && sr == 0);
    } else {
        if fv == 0 {
            assert(fvr == 0);
            vstd::arithmetic::mul::lemma_mul_basics(u as int);
            vstd::arithmetic::mul::lemma_mul_basics(ur as int);
            vstd::arithmetic::div_mod::lemma_small_mod(0, p);
            assert(s == 0 && sr == 0);
        } else {
            // sr = (p - u)(p - fv) mod p, two negations that cancel
            field::lemma_mul_neg(u, (p - fv) as nat, p);
            assert(sr == field::spec_inv_add(field::spec_mul(u, (p - fv) as nat, p), p));
            vstd::arithmetic::mul::lemma_mul_is_commutative(u as int, (p - fv) as int);
            assert(field::spec_mul(u, (p - fv) as nat, p) == field::spec_mul(
                (p - fv) as nat,
                u,
                p,
            ));
            field::lemma_mul_neg(fv, u, p);
            vstd::arithmetic::div_mod::lemma_mod_bound((fv * u) as int, p as int);
            field::lemma_inv_add_twice(field::spec_mul(fv, u, p), p);
            vstd::arithmetic::mul::lemma_mul_is_commutative(fv as int, u as int);
            assert(sr == s);
        }
    }
    assert(sr == s);
    let ss = field::spec_mul(s, s, p);
    assert(ss < p) by {
        vstd::arithmetic::div_mod::lemma_mod_bound((s * s) as int, p as int);
    }
    field::lemma_sub_sub_swap(ss, x1, x2, p);
}

/// Law: every scalar multiple of the identity is the identity.
pub proof fn lemma_scalar_mul_identity_base(c: CurveVal, k: nat)
    ensures
        spec_scalar_mul(c, PointVal::Infinity, k) == PointVal::Infinity,
    decreases k,
{
    if k > 0 {
        lemma_scalar_mul_identity_base(c, k / 2);
    }
}

/// Law: one times a point is that point.
pub proof fn lemma_scalar_mul_one(c: CurveVal, pt: PointVal)
    ensures
        spec_scalar_mul(c, pt, 1) == pt,
{
    assert(spec_scalar_mul(c, pt, 0) == PointVal::Infinity);
}

/// Law: two times a point is its double.
pub proof fn lemma_scalar_mul_two(c: CurveVal, pt: PointVal)
    ensures
        spec_scalar_mul(c, pt, 2) == spec_double(c, pt),
{
    lemma_scalar_mul_one(c, pt);
}

impl EllipticCurve {
    /// The parameters a verified caller must supply: an odd modulus of at
    /// least three (an odd prime, which no run-time test can check), and
    /// reduced coefficients.
    pub open spec fn wf(&self) -> bool {
        self@.p >= 3 && self@.p % 2 == 1 && self@.a < self@.p && self@.b < self@.p
    }

    /// Builds a curve after checking the parameters: the modulus must be
    /// odd and at least three, the coefficients reduced, and the curve
    /// non-singular (4a^3 + 27b^2 not divisible by p).
    pub fn new(
        a: num_bigint::BigUint,
        b: num_bigint::BigUint,
        p: num_bigint::BigUint,
    ) -> (res: Result<EllipticCurve, EcError>)
        ensures
            res is Ok <==> (nat_of(p) >= 3 && nat_of(p) % 2 == 1 && nat_of(a) < nat_of(p)
                && nat_of(b) < nat_of(p) && !spec_singular(
                CurveVal { a: nat_of(a), b: nat_of(b), p: nat_of(p) },
            )),
            res matches Ok(c) ==> c@ == (CurveVal { a: nat_of(a), b: nat_of(b), p: nat_of(p) })
                && c.wf(),
            res matches Err(e) ==> e == (if !(nat_of(p) >= 3 && nat_of(p) % 2 == 1) {
                EcError::DegenerateCurve
            } else if !(nat_of(a) < nat_of(p) && nat_of(b) < nat_of(p)) {
                EcError::FieldPreconditionViolated
            } else {
                EcError::DegenerateCurve
            }),
    {
        let two = bignum::from_u64(2);
        if !bignum::lt_big(&two, &p) {
            return Err(EcError::DegenerateCurve);
        }
        let one = bignum::from_u64(1);
        let parity = bignum::rem_big(&p, &two);
        if !bignum::eq_big(&parity, &one) {
            return Err(EcError::DegenerateCurve);
        }
        if !bignum::lt_big(&a, &p) {
            return Err(EcError::FieldPreconditionViolated);
        }
        if !bignum::lt_big(&b, &p) {
            return Err(EcError::FieldPreconditionViolated);
        }
        let four = bignum::from_u64(4);
        let twenty_seven = bignum::from_u64(27);
        let aa = bignum::mul_big(&a, &a);
        let aaa = bignum::mul_big(&aa, &a);
        let ta = bignum::mul_big(&four, &aaa);
        let bb = bignum::mul_big(&b, &b);
        let tb = bignum::mul_big(&twenty_seven, &bb);
        let s = bignum::add_big(&ta, &tb);
        let d = bignum::rem_big(&s, &p);
        let zero = bignum::from_u64(0);
        if bignum::eq_big(&d, &zero) {
            return Err(EcError::DegenerateCurve);
        }
        Ok(EllipticCurve { a, b, p })
    }

    /// Whether the point satisfies the curve equation; the identity always does.
    pub fn on_curve(&self, pt: &Point) -> (r: bool)
        ensures
            r == spec_on_curve(self@, pt@),
    {
        match pt {
            Point::Identity => true,
            Point::Affine(x, y) => {
                let zero = bignum::from_u64(0);
                if !bignum::lt_big(&zero, &self.p) {
                    return false;
                }
                let yy = bignum::mul_big(y, y);
                let lhs = bignum::rem_big(&yy, &self.p);
                let xx = bignum::mul_big(x, x);
                let xxx = bignum::mul_big(&xx, x);
                let ax = bignum::mul_big(&self.a, x);
                let t = bignum::add_big(&xxx, &ax);
                let t2 = bignum::add_big(&t, &self.b);
                let rhs = bignum::rem_big(&t2, &self.p);
                bignum::eq_big(&lhs, &rhs)
            },
        }
    }

    /// The double of a point, by the tangent law.  On a well-formed curve
    /// and a reduced point it always succeeds and returns exactly the
    /// tangent-law value; an error reports an unreduced operand.
    pub fn double(&self, pt: &Point) -> (res: Result<Point, EcError>)
        ensures
            (self.wf() && reduced(pt@, self@.p)) ==> (res matches Ok(q) && q@ == spec_double(
                self@,
                pt@,
            ) && reduced(q@, self@.p)),
            res is Err ==> !(self.wf() && reduced(pt@, self@.p)),
    {
        match pt {
            Point::Identity => Ok(Point::Identity),
            Point::Affine(x, y) => {
                let zero = bignum::from_u64(0);
                if bignum::eq_big(y, &zero) {
                    return Ok(Point::Identity);
                }
                proof {
                    if self.wf() && reduced(pt@, self@.p) {
                        lemma_double_nonzero(nat_of(*y), self@.p);
                    }
                }
                let xx = match field::mul(x, x, &self.p) {
                    Ok(v) => v,
                    Err(e) => return Err(e),
                };
                let t = match field::add(&xx, &xx, &self.p) {
                    Ok(v) => v,
                    Err(e) => return Err(e),
                };
                let t3 = match field::add(&t, &xx, &self.p) {
                    Ok(v) => v,
                    Err(e) => return Err(e),
                };
                let num = match field::add(&t3, &self.a, &self.p) {
                    Ok(v) => v,
                    Err(e) => return Err(e),
                };
                let den = match field::add(y, y, &self.p) {
                    Ok(v) => v,
                    Err(e) => return Err(e),
                };
                let s = match field::div(&num, &den, &self.p) {
                    Ok(v) => v,
                    Err(e) => return Err(e),
                };
                let ss = match field::mul(&s, &s, &self.p) {
                    Ok(v) => v,
                    Err(e) => return Err(e),
                };
                let u = match field::sub(&ss, x, &self.p) {
                    Ok(v) => v,
                    Err(e) => return Err(e),
                };
                let x3 = match field::sub(&u, x, &self.p) {
                    Ok(v) => v,
                    Err(e) => return Err(e),
                };
                let xd = match field::sub(x, &x3, &self.p) {
                    Ok(v) => v,
                    Err(e) => return Err(e),
                };
                let sxd = match field::mul(&s, &xd, &self.p) {
                    Ok(v) => v,
                    Err(e) => return Err(e),
                };
                let y3 = match field::sub(&sxd, y, &self.p) {
                    Ok(v) => v,
                    Err(e) => return Err(e),
                };
                Ok(Point::Affine(x3, y3))
            },
        }
    }

    /// The group law.  On a well-formed curve and reduced points it always
    /// succeeds and returns exactly the chord-and-tangent value, routing
    /// coinciding operands to `double`; an error reports an unreduced operand.
    pub fn add(&self, p1: &Point, p2: &Point) -> (res: Result<Point, EcError>)
        ensures
            (self.wf() && reduced(p1@, self@.p) && reduced(p2@, self@.p)) ==> (res matches Ok(q)
                && q@ == spec_ec_add(self@, p1@, p2@) && reduced(q@, self@.p)),
            res is Err ==> !(self.wf() && reduced(p1@, self@.p) && reduced(p2@, self@.p)),
    {
        match (p1, p2) {
            (Point::Identity, _) => Ok(p2.clone()),
            (_, Point::Identity) => Ok(p1.clone()),
            (Point::Affine(x1, y1), Point::Affine(x2, y2)) => {
                if bignum::eq_big(x1, x2) {
                    let ys = match field::add(y1, y2, &self.p) {
                        Ok(v) => v,
                        Err(e) => return Err(e),
                    };
                    let zero = bignum::from_u64(0);
                    if bignum::eq_big(&ys, &zero) {
                        return Ok(Point::Identity);
                    }
                    self.double(p1)
                } else {
                    proof {
                        if self.wf() && reduced(p1@, self@.p) && reduced(p2@, self@.p) {
                            lemma_sub_nonzero(nat_of(*x1), nat_of(*x2), self@.p);
                        }
                    }
                    let dy = match field::sub(y2, y1, &self.p) {
                        Ok(v) => v,
                        Err(e) => return Err(e),
                    };
                    let dx = match field::sub(x2, x1, &self.p) {
                        Ok(v) => v,
                        Err(e) => return Err(e),
                    };
                    let s = match field::div(&dy, &dx, &self.p) {
                        Ok(v) => v,
                        Err(e) => return Err(e),
                    };
                    let ss = match field::mul(&s, &s, &self.p) {
                        Ok(v) => v,
                        Err(e) => return Err(e),
                    };
                    let u = match field::sub(&ss, x1, &self.p) {
                        Ok(v) => v,
                        Err(e) => return Err(e),
                    };
                    let x3 = match field::sub(&u, x2, &self.p) {
                        Ok(v) => v,
                        Err(e) => return Err(e),
                    };
                    let xd = match field::sub(x1, &x3, &self.p) {
                        Ok(v) => v,
                        Err(e) => return Err(e),
                    };
                    let sxd = match field::mul(&s, &xd, &self.p) {
                        Ok(v) => v,
                        Err(e) => return Err(e),
                    };
                    let y3 = match field::sub(&sxd, y1, &self.p) {
                        Ok(v) => v,
                        Err(e) => return Err(e),
                    };
                    Ok(Point::Affine(x3, y3))
                }
            },
        }
    }

    /// `k` times a point, by double and add over the bits of `k`, most
    /// significant first.  On a well-formed curve and a reduced point it
    /// always succeeds and returns exactly the `spec_scalar_mul` value.
    pub fn scalar_mul(&self, pt: &Point, k: &num_bigint::BigUint) -> (res: Result<Point, EcError>)
        ensures
            (self.wf() && reduced(pt@, self@.p)) ==> (res matches Ok(q) && q@ == spec_scalar_mul(
                self@,
                pt@,
                nat_of(*k),
            ) && reduced(q@, self@.p)),
            res is Err ==> !(self.wf() && reduced(pt@, self@.p)),
    {
        let nbits = bignum::bits_big(k);
        let mut acc = Point::Identity;
        proof {
            lemma_pow2_pos(nbits as nat);
            vstd::arithmetic::div_mod::lemma_basic_div(
                nat_of(*k) as int,
                pow_nat(2, nbits as nat) as int,
            );
        }
        let mut i = nbits;
        while i > 0
            invariant
                (self.wf() && reduced(pt@, self@.p)) ==> (acc@ == spec_scalar_mul(
                    self@,
                    pt@,
                    nat_of(*k) / pow_nat(2, i as nat),
                ) && reduced(acc@, self@.p)),
            decreases i,
        {
            i = i - 1;
            let ghost m_prev = nat_of(*k) / pow_nat(2, (i + 1) as nat);
            let ghost m_cur = nat_of(*k) / pow_nat(2, i as nat);
            proof {
                lemma_pow2_pos(i as nat);
                assert(pow_nat(2, (i + 1) as nat) == 2 * pow_nat(2, i as nat));
                vstd::arithmetic::div_mod::lemma_div_denominator(
                    nat_of(*k) as int,
                    pow_nat(2, i as nat) as int,
                    2,
                );
                assert(m_cur / 2 == m_prev);
            }
            let dbl = match self.double(&acc) {
                Ok(v) => v,
                Err(e) => return Err(e),
            };
            acc = dbl;
            if bignum::bit_big(k, i) {
                let sum = match self.add(&acc, pt) {
                    Ok(v) => v,
                    Err(e) => return Err(e),
                };
                acc = sum;
            }
        }
        proof {
            assert(pow_nat(2, 0) == 1);
            vstd::arithmetic::div_mod::lemma_div_basics(nat_of(*k) as int);
        }
        Ok(acc)
    }
}

} // verus!
