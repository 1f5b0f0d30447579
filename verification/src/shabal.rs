use vstd::prelude::*;
use shabal::Digest;

verus! {

/// The Shabal-256 digest of a byte string, as computed by the `shabal` crate.
pub uninterp spec fn shabal256_digest(data: Seq<u8>) -> Seq<u8>;

/// Hashes `data` with Shabal-256 (`shabal::Shabal256::digest`).
///
/// Trusted: the 32 returned bytes are the digest named `shabal256_digest`
/// of exactly the bytes handed in; nothing else is claimed of the value.
#[verifier::external_body]
pub(crate) fn shabal256(data: &[u8]) -> (hash: [u8; 32])
    ensures
        hash@ == shabal256_digest(data@),
{
    let out = shabal::Shabal256::digest(data);
    let mut hash = [0u8; 32];
    hash.copy_from_slice(&out);
    hash
}

} // verus!
