//! Content addresses: the SHA-256 digest of a picture, written in hex.

use crate::text::{hex, hex_text};
use sha2::{Digest, Sha256};
use vstd::prelude::*;

verus! {

/// The SHA-256 digest of `data`, as `sha2` computes it.
pub uninterp spec fn sha256(data: Seq<u8>) -> Seq<u8>;

/// `Sha256::digest` of the `sha2` crate: the digest of the bytes, which has
/// 32 bytes.
#[verifier::external_body]
pub(crate) fn sha256_digest(data: &Vec<u8>) -> (digest: Vec<u8>)
    ensures
        digest@ == sha256(data@),
        digest@.len() == 32,
{
    Sha256::digest(data.as_slice()).to_vec()
}

/// The name under which content is stored: its digest in lower-case hex.
pub open spec fn content_name(data: Seq<u8>) -> Seq<char> {
    hex_text(sha256(data))
}

/// The name under which `data` is stored. It has 64 characters.
pub fn content_address(data: &Vec<u8>) -> (name: String)
    ensures
        name@ == content_name(data@),
        name@.len() == 64,
{
    let digest = sha256_digest(data);
    hex(&digest)
}

} // verus!
