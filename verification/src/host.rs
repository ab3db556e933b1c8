//! The two services of the host environment: its Keccak-256 hash and its
//! block timestamp. Neither is verified; each is stated here as far as the
//! environment defines it.

use vstd::prelude::*;

verus! {

/// The Keccak-256 digest of a byte string, as the host environment computes
/// it. The digest depends on the bytes alone; nothing else is claimed of it
/// here.
pub uninterp spec fn keccak256(input: Seq<u8>) -> Seq<u8>;

/// Calls `ink::env::hash_bytes` with `ink::env::hash::Keccak256` on `input`
/// and returns the 32-byte output buffer. Trusted: the buffer holds the
/// Keccak-256 digest of `input`, a function of the input bytes only.
#[verifier::external_body]
pub(crate) fn hash_keccak256(input: &[u8]) -> (digest: [u8; 32])
    ensures
        digest@ == keccak256(input@),
{
    let mut output = [0u8; 32];
    ink::env::hash_bytes::<ink::env::hash::Keccak256>(input, &mut output);
    output
}

/// Calls `ink::env::block_timestamp` for the default environment. Trusted,
/// and nothing is claimed of the value: it is whatever the host reports for
/// the current block, and may differ from one call to the next.
#[verifier::external_body]
pub(crate) fn block_timestamp() -> (now: u64) {
    ink::env::block_timestamp::<ink::env::DefaultEnvironment>()
}

} // verus!
