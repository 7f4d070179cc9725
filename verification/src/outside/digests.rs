//! Hashing and encoding of bytes: `sha1` and `base64`.

use base64::Engine;
use sha1::Digest;
use vstd::prelude::*;

verus! {

/// The SHA-1 digest of a message.
pub uninterp spec fn sha1_of(message: Seq<u8>) -> Seq<u8>;

/// The base64 form of some bytes, in the standard alphabet with padding.
pub uninterp spec fn base64_of(bytes: Seq<u8>) -> Seq<char>;

/// `Sha1::digest` of the `sha1` crate: the twenty bytes of the message's digest.
#[verifier::external_body]
pub(crate) fn sha1_digest(message: &[u8]) -> (r: Vec<u8>)
    ensures
        r@ == sha1_of(message@),
        r@.len() == 20,
{
    sha1::Sha1::digest(message).to_vec()
}

/// `Engine::encode` of the `base64` crate, with its `STANDARD` engine. It panics where the
/// length of the result overflows.
#[verifier::external_body]
pub(crate) fn base64_encode(bytes: &[u8]) -> (r: String)
    requires
        bytes@.len() <= 0x3fff_ffff,
    ensures
        r@ == base64_of(bytes@),
{
    base64::engine::general_purpose::STANDARD.encode(bytes)
}

} // verus!
