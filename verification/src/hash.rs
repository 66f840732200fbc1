//! Commitments: the one-way digests stored in place of text.

use vstd::prelude::*;
use vstd::string::StringSliceAdditionalSpecFns;

verus! {

/// The Keccak-256 digest of a byte string.
pub uninterp spec fn keccak256(bytes: Seq<u8>) -> Seq<u8>;

/// `stylus_sdk::crypto::keccak`: the 32-byte Keccak-256 digest of the given
/// bytes, a function of those bytes alone.
#[verifier::external_body]
fn keccak(bytes: &[u8]) -> (digest: [u8; 32])
    ensures
        digest@ == keccak256(bytes@),
{
    stylus_sdk::crypto::keccak(bytes).0
}

/// The digest of a byte string.
pub fn hash_bytes(bytes: &[u8]) -> (digest: [u8; 32])
    ensures
        digest@ == keccak256(bytes@),
{
    keccak(bytes)
}

/// The commitment to a text: the digest of its UTF-8 bytes.
pub fn hash_string(input: &str) -> (digest: [u8; 32])
    ensures
        digest@ == keccak256(input.spec_bytes()),
{
    keccak(input.as_bytes())
}

} // verus!
