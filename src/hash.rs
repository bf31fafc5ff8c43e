//! Content hashes of archives.

use vstd::prelude::*;

use crate::text::{hex, hex_string};

verus! {

/// The SHA-256 digest of a byte sequence.
pub uninterp spec fn sha256_of(b: Seq<u8>) -> Seq<u8>;

/// Relies on `sha2::Sha256::digest` (through `sha2::Digest`): the SHA-256
/// digest of the bytes, which is 32 bytes long.
#[verifier::external_body]
fn sha256(b: &[u8]) -> (r: Vec<u8>)
    ensures
        r@ == sha256_of(b@),
        r@.len() == 32,
{
    <sha2::Sha256 as sha2::Digest>::digest(b).to_vec()
}

/// The content hash of an archive, as it is declared by the registry: the
/// SHA-256 digest in lowercase hexadecimal.
pub open spec fn content_hash(b: Seq<u8>) -> Seq<char> {
    hex(sha256_of(b))
}

pub fn hash_str(b: &[u8]) -> (r: String)
    ensures
        r@ == content_hash(b@),
{
    let digest = sha256(b);
    hex_string(digest.as_slice())
}

} // verus!
