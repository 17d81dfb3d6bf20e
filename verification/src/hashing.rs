//! The fixed collision-resistant hash function: SHA-256, applied to the
//! canonical byte encoding of each stored value to obtain its leaf digest.

use vstd::prelude::*;

verus! {

/// The 256-bit SHA-256 digest of a byte sequence, as the `sha2` crate
/// computes it: a function of the input bytes alone.
pub uninterp spec fn sha256_of(bytes: Seq<u8>) -> Seq<u8>;

/// Relies on `sha2::Sha256::digest` (via the `Digest` trait): one 32-byte
/// digest for the whole input, depending on the input bytes alone.
#[verifier::external_body]
pub(crate) fn sha256(bytes: &Vec<u8>) -> (r: [u8; 32])
    ensures
        r@ == sha256_of(bytes@),
{
    let digest = <sha2::Sha256 as sha2::Digest>::digest(bytes.as_slice());
    digest.into()
}

} // verus!
