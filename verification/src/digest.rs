//! The one-way hash under which tokens are stored.

use sha2::Digest;
use sha2::Sha256;
use vstd::prelude::*;
use vstd::utf8::encode_utf8;

verus! {

/// How many bytes a digest has.
pub const DIGEST_LENGTH: usize = 32;

/// The SHA-256 digest of `message`, as the `sha2` crate computes it.
pub uninterp spec fn sha256(message: Seq<u8>) -> Seq<u8>;

/// The digest under which the plaintext `text` is stored: the SHA-256 digest
/// of its UTF-8 encoding.
pub open spec fn digest_of(text: Seq<char>) -> Seq<u8> {
    sha256(encode_utf8(text))
}

/// The SHA-256 digest of `message`.
///
/// Trusted: `sha2::Sha256::digest`. The digest depends on the bytes of the
/// message alone, and the hasher's output size is fixed at 32 bytes.
#[verifier::external_body]
pub(crate) fn sha256_digest(message: &[u8]) -> (digest: Vec<u8>)
    ensures
        digest@ == sha256(message@),
        digest@.len() == DIGEST_LENGTH,
{
    Sha256::digest(message).as_slice().to_vec()
}

} // verus!
