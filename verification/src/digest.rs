//! SHA-256, computed by the `sha2` crate.

use sha2::Digest;
use vstd::prelude::*;

verus! {

/// The SHA-256 digest of a byte sequence.
pub uninterp spec fn sha256(data: Seq<u8>) -> Seq<u8>;

/// `sha2::Sha256::digest`: hashes `data` in one go.
///
/// Trusted: the claim is only that the 32 bytes returned are the SHA-256
/// digest of exactly the bytes given, named `sha256`; the digest itself is
/// not stated. Feeding a hasher several pieces with `update` and then calling
/// `finalize` gives the digest of their concatenation, which is what this
/// one call computes on the concatenated input.
#[verifier::external_body]
pub(crate) fn sha256_digest(data: &[u8]) -> (r: [u8; 32])
    ensures
        r@ == sha256(data@),
{
    sha2::Sha256::digest(data).into()
}

} // verus!
