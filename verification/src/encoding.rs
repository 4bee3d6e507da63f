//! Text encoding of envelopes: the registry and the transport carry an
//! envelope as base64 text and never look inside it.
use vstd::prelude::*;

use base64::Engine;

verus! {

/// The base64 text (standard alphabet, canonical padding) of a byte
/// sequence; a pure function of the bytes.
pub uninterp spec fn base64_of(bytes: Seq<u8>) -> Seq<char>;

/// Relies on base64::Engine::encode with
/// base64::engine::general_purpose::STANDARD: the standard alphabet with
/// canonical padding, deterministic in the input bytes.
#[verifier::external_body]
pub(crate) fn base64_encode(bytes: &[u8]) -> (r: String)
    ensures
        r@ == base64_of(bytes@),
{
    base64::engine::general_purpose::STANDARD.encode(bytes)
}

/// Relies on base64::Engine::decode with
/// base64::engine::general_purpose::STANDARD: canonical padding is required
/// and trailing bits are rejected, so decoding succeeds on exactly the
/// strings the encoder produces and returns the bytes they encode; the
/// encoding is injective, so those bytes are the only preimage.
#[verifier::external_body]
pub(crate) fn base64_decode(text: &str) -> (r: Result<Vec<u8>, ()>)
    ensures
        r matches Ok(v) ==> text@ == base64_of(v@),
        r matches Ok(v) ==> forall|w: Seq<u8>| base64_of(w) == text@ ==> w == v@,
        (r is Ok) == (exists|w: Seq<u8>| base64_of(w) == text@),
{
    match base64::engine::general_purpose::STANDARD.decode(text) {
        Ok(v) => Ok(v),
        Err(_) => Err(()),
    }
}

} // verus!
