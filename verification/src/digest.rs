//! Message digests computed by the `md-5` and `sha2` crates.
use vstd::prelude::*;

use md5::Md5;
use sha2::{Digest, Sha256};

verus! {

/// The MD5 digest of `data`, as the `md-5` crate computes it.
pub uninterp spec fn md5_of(data: Seq<u8>) -> Seq<u8>;

/// The SHA-256 digest of `data`, as the `sha2` crate computes it.
pub uninterp spec fn sha256_of(data: Seq<u8>) -> Seq<u8>;

/// Computes the MD5 digest of `data` with `<md5::Md5 as Digest>::digest`.
///
/// Claims that the result is a function of `data` alone, named `md5_of`, and
/// that it is 16 bytes long, as MD5 output always is. The digest algorithm
/// itself is not stated.
#[verifier::external_body]
pub(crate) fn md5_digest(data: &[u8]) -> (r: Vec<u8>)
    ensures
        r@ == md5_of(data@),
        r@.len() == 16,
{
    Md5::digest(data).to_vec()
}

/// Computes the SHA-256 digest of `data` with `<sha2::Sha256 as Digest>::digest`.
///
/// Claims that the result is a function of `data` alone, named `sha256_of`,
/// and that it is 32 bytes long, as SHA-256 output always is. The digest
/// algorithm itself is not stated.
#[verifier::external_body]
pub(crate) fn sha256_digest(data: &[u8]) -> (r: Vec<u8>)
    ensures
        r@ == sha256_of(data@),
        r@.len() == 32,
{
    Sha256::digest(data).to_vec()
}

} // verus!
