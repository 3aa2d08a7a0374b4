//! Reduction of a message to a field scalar through an outside hash.
//!
//! The digest itself is outside work: `sha256_hex` names the hex string
//! that the hash produces for a message, a function of the message alone.
//! Turning that hex string into bytes and those bytes into an integer is
//! stated exactly.

use vstd::prelude::*;

verus! {

// The lowercase hex encoding of the SHA-256 digest of a message.
pub uninterp spec fn sha256_hex(msg: Seq<char>) -> Seq<char>;

/// Whether a character is a lowercase hexadecimal digit.
pub open spec fn is_lower_hex(c: char) -> bool {
    ('0' <= c && c <= '9') || ('a' <= c && c <= 'f')
}

/// The value of a lowercase hexadecimal digit.
pub open spec fn hex_digit_val(c: char) -> nat {
    if '0' <= c && c <= '9' {
        (c as nat - '0' as nat) as nat
    } else if 'a' <= c && c <= 'f' {
        (c as nat - 'a' as nat + 10) as nat
    } else {
        0
    }
}

/// The bytes denoted by a hex string, two digits to a byte, high digit first.
pub open spec fn hex_bytes(s: Seq<char>) -> Seq<u8>
    decreases s.len(),
{
    if s.len() < 2 {
        Seq::empty()
    } else {
        seq![(16 * hex_digit_val(s[0]) + hex_digit_val(s[1])) as u8] + hex_bytes(s.skip(2))
    }
}

/// The scalar in [1, q - 1] that a message reduces to: the digest read as
/// a big-endian integer, taken modulo q - 1, plus one.
pub open spec fn spec_message_scalar(msg: Seq<char>, q: nat) -> nat {
    if q >= 2 {
        (crate::bignum::be_value(hex_bytes(sha256_hex(msg))) % ((q - 1) as nat) + 1) as nat
    } else {
        0
    }
}

/// Relies on `sha256::digest` (for `&str`): the SHA-256 digest of the
/// message as a string of 64 lowercase hex characters, a function of the
/// message alone.
#[verifier::external_body]
pub fn sha_digest(message: &str) -> (r: String)
    ensures
        r@ == sha256_hex(message@),
        r@.len() == 64,
        forall|i: int| 0 <= i < r@.len() ==> is_lower_hex(#[trigger] r@[i]),
{
    sha256::digest(message)
}

/// Relies on `hex::decode`: on a string of hex digit pairs it returns the
/// denoted bytes; other inputs are kept out, since they make it fail.
#[verifier::external_body]
pub fn hex_decode(s: &str) -> (r: Vec<u8>)
    requires
        s@.len() % 2 == 0,
        forall|i: int| 0 <= i < s@.len() ==> is_lower_hex(#[trigger] s@[i]),
    ensures
        r@ == hex_bytes(s@),
{
    match hex::decode(s) {
        Ok(v) => v,
        Err(_) => Vec::new(),
    }
}

} // verus!
