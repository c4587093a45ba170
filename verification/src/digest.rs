//! SHA-256, as computed by the `sha2` crate, and its lowercase hex text.

use vstd::prelude::*;

use crate::decimal::{hex_bytes, push_hex_bytes};
use sha2::Digest;

verus! {

/// The SHA-256 digest of `data`, as `sha2::Sha256` computes it.
pub uninterp spec fn sha256_of(data: Seq<u8>) -> Seq<u8>;

/// `sha2::Sha256::digest`: the 32-byte SHA-256 digest of `data`. The
/// contract claims only that the digest is a function of `data` alone.
#[verifier::external_body]
pub(crate) fn sha256(data: &[u8]) -> (d: [u8; 32])
    ensures
        d@ == sha256_of(data@),
{
    sha2::Sha256::digest(data).into()
}

/// The SHA-256 digest of `data` as 64 lowercase hex digits.
pub fn sha256_hex(data: &[u8]) -> (s: String)
    ensures
        s@ == hex_bytes(sha256_of(data@)),
{
    let d = sha256(data);
    let mut s = String::new();
    push_hex_bytes(&mut s, d.as_slice());
    s
}

} // verus!
