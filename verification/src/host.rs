//! What the library takes from the `ink` environment without proof.

use vstd::prelude::*;

verus! {

/// The 32-byte BLAKE2b digest of a byte string, as `ink` computes it.
pub uninterp spec fn blake2x256_digest(input: Seq<u8>) -> Seq<u8>;

/// Hashes `input` with `ink::env::hash_bytes` and the `Blake2x256` hasher.
///
/// Trusted: the digest depends on the input bytes alone, so it is given the
/// name [`blake2x256_digest`]. Nothing else is claimed of it.
#[verifier::external_body]
pub(crate) fn blake2x256(input: &[u8]) -> (digest: [u8; 32])
    ensures
        digest@ == blake2x256_digest(input@),
{
    let mut output = [0u8; 32];
    ink::env::hash_bytes::<ink::env::hash::Blake2x256>(input, &mut output);
    output
}

} // verus!
