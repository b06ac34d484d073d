//! Double SHA-256.

use vstd::prelude::*;

use sha2::{Digest, Sha256};

verus! {

/// The SHA-256 digest of a byte string.
pub uninterp spec fn sha256(data: Seq<u8>) -> Seq<u8>;

/// SHA-256 of the SHA-256 digest.
pub open spec fn double_sha256(data: Seq<u8>) -> Seq<u8> {
    sha256(sha256(data))
}

/// `sha2::Sha256::digest`: the 32-byte digest, a function of the bytes alone.
#[verifier::external_body]
pub(crate) fn sha256_digest(data: &[u8]) -> (r: [u8; 32])
    ensures
        r@ == sha256(data@),
{
    Sha256::digest(data).into()
}

/// Hashes a byte string twice.
pub fn sha256d(data: &[u8]) -> (r: [u8; 32])
    ensures
        r@ == double_sha256(data@),
{
    let once = sha256_digest(data);
    sha256_digest(once.as_slice())
}

}
