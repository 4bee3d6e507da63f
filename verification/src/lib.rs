//! Verified core of a small secure file-sharing service: an authenticated
//! encryption envelope codec and an ephemeral single-use share registry.
use vstd::prelude::*;

pub mod codec;
pub mod encoding;
pub mod registry;
pub mod service;

verus! {

/// Failures of the envelope codec.
#[derive(Clone, Copy, Debug, PartialEq, Eq, Structural)]
pub enum CodecError {
    /// The key material has the wrong length (a key must be 32 bytes).
    InvalidKey,
    /// The input is too short to contain a nonce, or is not a valid encoding.
    MalformedEnvelope,
    /// Tag verification failed: wrong key, corruption or tampering.
    AuthenticationFailed,
    /// The secure random source refused to produce random bytes — a nonce,
    /// or a share code when publishing.
    RandomnessFailed,
}

impl CodecError {
    /// A short description for the caller's logging and error surfaces.
    pub fn message(&self) -> (r: String)
        ensures
            *self == CodecError::InvalidKey ==> r@ == "Invalid key"@,
            *self == CodecError::MalformedEnvelope ==> r@ == "Invalid data"@,
            *self == CodecError::AuthenticationFailed ==> r@ == "Decryption failed"@,
            *self == CodecError::RandomnessFailed ==> r@ == "Random source unavailable"@,
    {
        match self {
            CodecError::InvalidKey => "Invalid key".to_owned(),
            CodecError::MalformedEnvelope => "Invalid data".to_owned(),
            CodecError::AuthenticationFailed => "Decryption failed".to_owned(),
            CodecError::RandomnessFailed => "Random source unavailable".to_owned(),
        }
    }
}

} // verus!
