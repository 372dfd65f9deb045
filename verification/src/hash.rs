//! Keccak-256.

use vstd::prelude::*;
use crate::bytes::B256;

verus! {

/// The Keccak-256 digest of `data`: 32 bytes, fixed by the input alone.
pub uninterp spec fn keccak256_of(data: Seq<u8>) -> Seq<u8>;

/// [`alloy_primitives::keccak256`]: the Keccak-256 digest of the bytes.
#[verifier::external_body]
pub(crate) fn keccak256(data: &[u8]) -> (r: B256)
    ensures
        r@ == keccak256_of(data@),
{
    alloy_primitives::keccak256(data).0
}

} // verus!
