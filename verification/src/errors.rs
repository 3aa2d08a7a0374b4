use vstd::prelude::*;

verus! {

/// The closed set of failures that field, curve and signing operations report.
#[derive(Clone, Copy, Debug, PartialEq, Eq, Structural)]
pub enum EcError {
    /// An operand handed to a field operation is not reduced modulo the supplied modulus.
    FieldPreconditionViolated,
    /// An attempt to invert zero, or to divide by zero, in the field.
    NoMultiplicativeInverse,
    /// A point handed to the signer does not lie on the curve.
    PointNotOnCurve,
    /// A scalar argument to sign is zero or not below the group order.
    ScalarOutOfRange,
    /// Signing with the given nonce produced a degenerate value; retry with a fresh nonce.
    BadNonce,
    /// The curve parameters describe a singular curve or a modulus that is not an odd prime.
    DegenerateCurve,
}

} // verus!
