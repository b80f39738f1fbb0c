//! Trusted bindings to the outside byte-encoding crates. The decoders state
//! their contracts over the names `base64_decoding` and `base58_encoding`;
//! everything after these calls is verified.

use base64::Engine;
use vstd::prelude::*;

verus! {

/// What decoding a string as standard, padded base64 yields: the decoded
/// bytes, or nothing when the input is not valid base64.
pub uninterp spec fn base64_decoding(s: Seq<char>) -> Option<Seq<u8>>;

/// What encoding bytes as base58 text (Bitcoin alphabet) yields.
pub uninterp spec fn base58_encoding(b: Seq<u8>) -> Seq<char>;

/// Relies on base64's `STANDARD` engine: `decode` yields the decoded bytes of
/// a valid input and an error otherwise, as a function of the input alone.
#[verifier::external_body]
pub(crate) fn b64_decode(data: &str) -> (r: Option<Vec<u8>>)
    ensures
        match r {
            Some(v) => base64_decoding(data@) == Some(v@),
            None => base64_decoding(data@) is None,
        },
{
    base64::engine::general_purpose::STANDARD.decode(data).ok()
}

/// Relies on bs58's `encode` with its default (Bitcoin) alphabet: the encoded
/// text is a function of the input bytes alone.
#[verifier::external_body]
pub(crate) fn bs58_encode(data: &[u8]) -> (r: String)
    ensures
        r@ == base58_encoding(data@),
{
    bs58::encode(data).into_string()
}

} // verus!
