//! The content hash used for block identifiers.
//!
//! The chain's hash algorithm (double SHA-256) is opaque to this component:
//! its result is named by [`sha256d_of`] and computed by an outside crate.

use vstd::prelude::*;

verus! {

/// The double-SHA-256 digest of a byte sequence: 32 bytes, a function of the
/// input bytes alone.
pub uninterp spec fn sha256d_of(data: Seq<u8>) -> Seq<u8>;

/// Relies on `bitcoin_hashes::sha256d::Hash::hash`: the double-SHA-256 digest
/// of the input bytes, 32 bytes long, depending on the input alone;
/// `to_byte_array` returns the digest's bytes.
#[verifier::external_body]
pub(crate) fn sha256d(data: &Vec<u8>) -> (r: Vec<u8>)
    ensures
        r@ == sha256d_of(data@),
        r@.len() == 32,
{
    bitcoin_hashes::sha256d::Hash::hash(data.as_slice()).to_byte_array().to_vec()
}

} // verus!
