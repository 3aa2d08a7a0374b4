//! ECDSA over short Weierstrass curves y^2 = x^3 + ax + b on a prime
//! field: verified modular arithmetic, the affine group law with scalar
//! multiplication, and the sign/verify protocol on top, with
//! arbitrary-precision integers, hashing and randomness consumed from
//! outside crates behind trusted contracts.

pub mod bignum;
pub mod curve;
pub mod ecdsa;
pub mod errors;
pub mod field;
pub mod hashing;
pub mod randomness;
