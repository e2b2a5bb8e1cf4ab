//! SHA-256, computed by the `sha2` crate, and the hashed form in which a
//! client presents the secret token.

use sha2::{Digest, Sha256};
use vstd::prelude::*;
use crate::text::{hex_of, to_hex, trim, trimmed};

verus! {

/// The SHA-256 digest of a byte string.
pub uninterp spec fn sha256_of(data: Seq<u8>) -> Seq<u8>;

/// Calls `sha2::Sha256::digest`. Trusted: the result is the SHA-256 digest of
/// `data`, a function of the input bytes alone, and is 32 bytes long.
#[verifier::external_body]
fn sha256(data: &[u8]) -> (out: Vec<u8>)
    ensures
        out@ == sha256_of(data@),
        out@.len() == 32,
{
    Sha256::digest(data).to_vec()
}

/// What a client must send to prove knowledge of `secret`: the lowercase
/// hexadecimal SHA-256 digest of the secret with surrounding whitespace removed.
pub open spec fn token_proof(secret: Seq<u8>) -> Seq<u8> {
    hex_of(sha256_of(trimmed(secret)))
}

/// Computes the value a client must present for `secret`.
pub fn hashed_token(secret: &[u8]) -> (r: Vec<u8>)
    ensures
        r@ == token_proof(secret@),
        r@.len() == 64,
{
    let core = trim(secret);
    let digest = sha256(core.as_slice());
    to_hex(digest.as_slice())
}

} // verus!
