use vstd::prelude::*;

use sha2::{Digest, Sha256};

verus! {

/// The SHA-256 digest of the bytes.
pub uninterp spec fn sha256_of(data: Seq<u8>) -> Seq<u8>;

/// The URL-safe base64 text of the bytes, without padding.
pub uninterp spec fn base64url_of(data: Seq<u8>) -> Seq<char>;

/// Relies on sha2's `Sha256::digest`: the 32-byte SHA-256 digest of the input.
#[verifier::external_body]
pub(crate) fn sha256(data: &[u8]) -> (r: Vec<u8>)
    ensures
        r@ == sha256_of(data@),
{
    Sha256::digest(data).to_vec()
}

/// Relies on `base64_url::encode`: the URL-safe base64 text of the input.
#[verifier::external_body]
pub(crate) fn base64url(data: &[u8]) -> (r: String)
    ensures
        r@ == base64url_of(data@),
{
    base64_url::encode(data)
}

} // verus!
