//! The outside source of random scalars.
//!
//! Nothing can be promised of a random value beyond its range, so the
//! sampler's contract says only that the result lies in the asked-for
//! half-open interval.

use vstd::prelude::*;

use num_bigint::RandBigInt;

use crate::bignum::nat_of;

verus! {

#[verifier::external_type_specification]
#[verifier::external_body]
pub struct ExThreadRng(rand::rngs::ThreadRng);

/// Relies on `rand::thread_rng`: a handle to the thread-local generator.
#[verifier::external_body]
pub fn fresh_rng() -> rand::rngs::ThreadRng {
    rand::thread_rng()
}

/// Relies on `num_bigint::RandBigInt::gen_biguint_range` for `ThreadRng`:
/// a sample in `[low, high)`; it panics on an empty range, so that case
/// is kept out.
#[verifier::external_body]
pub fn sample_range(
    rng: &mut rand::rngs::ThreadRng,
    low: &num_bigint::BigUint,
    high: &num_bigint::BigUint,
) -> (r: num_bigint::BigUint)
    requires
        nat_of(*low) < nat_of(*high),
    ensures
        nat_of(*low) <= nat_of(r) < nat_of(*high),
{
    rng.gen_biguint_range(low, high)
}

} // verus!
