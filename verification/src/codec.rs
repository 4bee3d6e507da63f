//! Envelope codec: authenticated encryption of plaintext bytes into a
//! self-contained envelope `nonce (12 bytes) ‖ ciphertext ‖ tag (16 bytes)`,
//! and the inverse transformation.
use vstd::prelude::*;

use crate::CodecError;

verus! {

/// Length of the nonce that opens every envelope.
pub const NONCE_LEN: usize = 12;

/// Length of the authentication tag that closes every envelope.
pub const TAG_LEN: usize = 16;

/// Length of a valid key in bytes (a 256-bit key).
pub const KEY_LEN: usize = 32;

/// Largest plaintext the AES-256-GCM sealing operation accepts,
/// ((2^39 - 256) / 8) bytes.
pub const MAX_PLAINTEXT_LEN: u64 = 68719476704;

/// The ciphertext-with-tag that AES-256-GCM sealing produces from a key, a
/// nonce and a plaintext; a pure function of those three arguments.
pub uninterp spec fn gcm_seal(key: Seq<u8>, nonce: Seq<u8>, plaintext: Seq<u8>) -> Seq<u8>;

/// What AES-256-GCM opening returns on a key, a nonce and a
/// ciphertext-with-tag: the plaintext when the tag verifies, nothing
/// otherwise; a pure function of those three arguments.
pub uninterp spec fn gcm_open(key: Seq<u8>, nonce: Seq<u8>, data: Seq<u8>) -> Option<Seq<u8>>;

/// A key is valid exactly when it is 32 bytes (256 bits) long.
pub open spec fn valid_key(key: Seq<u8>) -> bool {
    key.len() == KEY_LEN
}

/// The nonce portion of an envelope: its first 12 bytes.
pub open spec fn envelope_nonce(env: Seq<u8>) -> Seq<u8> {
    env.subrange(0, NONCE_LEN as int)
}

/// The ciphertext-with-tag portion of an envelope: everything after the nonce.
pub open spec fn envelope_body(env: Seq<u8>) -> Seq<u8> {
    env.subrange(NONCE_LEN as int, env.len() as int)
}

/// The envelope that sealing a plaintext under a key and a nonce produces.
pub open spec fn envelope_of(key: Seq<u8>, nonce: Seq<u8>, plaintext: Seq<u8>) -> Seq<u8> {
    nonce + gcm_seal(key, nonce, plaintext)
}

/// What decryption returns on a given envelope and key: a too-short input is
/// malformed, a wrong-length key is invalid, and otherwise the outcome of
/// authenticated opening decides between the plaintext and an
/// authentication failure.
pub open spec fn decrypt_model(env: Seq<u8>, key: Seq<u8>) -> Result<Seq<u8>, CodecError> {
    if env.len() < NONCE_LEN {
        Err(CodecError::MalformedEnvelope)
    } else if !valid_key(key) {
        Err(CodecError::InvalidKey)
    } else {
        match gcm_open(key, envelope_nonce(env), envelope_body(env)) {
            Some(p) => Ok(p),
            None => Err(CodecError::AuthenticationFailed),
        }
    }
}

/// An executable byte result agrees with a mathematical one.
pub open spec fn models(r: Result<Vec<u8>, CodecError>, m: Result<Seq<u8>, CodecError>) -> bool {
    match r {
        Ok(v) => m == Ok::<Seq<u8>, CodecError>(v@),
        Err(e) => m == Err::<Seq<u8>, CodecError>(e),
    }
}

/// Relies on ring's AES-256-GCM sealing: ring::aead::UnboundKey::new (fails
/// exactly when the key is not 32 bytes), ring::aead::LessSafeKey::new,
/// ring::aead::Nonce::assume_unique_for_key, and
/// ring::aead::LessSafeKey::seal_in_place_append_tag with empty associated
/// data, which appends a 16-byte tag and fails only when the input exceeds
/// the algorithm's maximum length. Sealing is deterministic in key, nonce
/// and plaintext, and what it seals opens back to the plaintext under the
/// same key and nonce.
#[verifier::external_body]
fn aead_seal(key: &[u8], nonce: &[u8], plaintext: &[u8]) -> (r: Vec<u8>)
    requires
        valid_key(key@),
        nonce@.len() == NONCE_LEN,
        plaintext@.len() <= MAX_PLAINTEXT_LEN,
    ensures
        r@ == gcm_seal(key@, nonce@, plaintext@),
        r@.len() == plaintext@.len() + TAG_LEN,
        gcm_open(key@, nonce@, r@) == Some(plaintext@),
{
    let unbound = ring::aead::UnboundKey::new(&ring::aead::AES_256_GCM, key).unwrap();
    let sealing_key = ring::aead::LessSafeKey::new(unbound);
    let nonce_arr: [u8; 12] = nonce.try_into().unwrap();
    let ring_nonce = ring::aead::Nonce::assume_unique_for_key(nonce_arr);
    let mut in_out = plaintext.to_vec();
    sealing_key
        .seal_in_place_append_tag(ring_nonce, ring::aead::Aad::empty(), &mut in_out)
        .unwrap();
    in_out
}

/// Relies on ring's AES-256-GCM opening: ring::aead::UnboundKey::new (fails
/// exactly when the key is not 32 bytes), ring::aead::LessSafeKey::new,
/// ring::aead::Nonce::assume_unique_for_key, and
/// ring::aead::LessSafeKey::open_in_place with empty associated data, which
/// returns the plaintext exactly when the 16-byte tag verifies and is
/// deterministic in key, nonce and input.
#[verifier::external_body]
fn aead_open(key: &[u8], nonce: &[u8], data: &[u8]) -> (r: Result<Vec<u8>, ()>)
    requires
        valid_key(key@),
        nonce@.len() == NONCE_LEN,
    ensures
        (r is Ok) == (gcm_open(key@, nonce@, data@) is Some),
        r matches Ok(p) ==> gcm_open(key@, nonce@, data@) == Some(p@),
{
    let unbound = ring::aead::UnboundKey::new(&ring::aead::AES_256_GCM, key).unwrap();
    let opening_key = ring::aead::LessSafeKey::new(unbound);
    let nonce_arr: [u8; 12] = nonce.try_into().unwrap();
    let ring_nonce = ring::aead::Nonce::assume_unique_for_key(nonce_arr);
    let mut in_out = data.to_vec();
    match opening_key.open_in_place(ring_nonce, ring::aead::Aad::empty(), &mut in_out) {
        Ok(plaintext) => Ok(plaintext.to_vec()),
        Err(_) => Err(()),
    }
}

/// Relies on ring::rand::SystemRandom::fill (via ring::rand::SecureRandom):
/// fills the buffer from the system's cryptographically secure random
/// source, or reports that the source is unavailable. Nothing can be
/// promised of the bytes themselves.
#[verifier::external_body]
fn random_nonce() -> (r: Result<Vec<u8>, ()>)
    ensures
        r matches Ok(v) ==> v@.len() == NONCE_LEN,
{
    let rng = ring::rand::SystemRandom::new();
    let mut nonce_bytes = [0u8; 12];
    match ring::rand::SecureRandom::fill(&rng, &mut nonce_bytes) {
        Ok(()) => Ok(nonce_bytes.to_vec()),
        Err(_) => Err(()),
    }
}

/// Appends every byte of `src` to `dst`, in order.
fn append_bytes(dst: &mut Vec<u8>, src: &[u8])
    requires
        old(dst)@.len() + src@.len() <= usize::MAX,
    ensures
        final(dst)@ == old(dst)@ + src@,
{
    let mut i: usize = 0;
    while i < src.len()
        invariant
            i <= src@.len(),
            old(dst)@.len() + src@.len() <= usize::MAX,
            dst@ == old(dst)@ + src@.subrange(0, i as int),
        decreases src@.len() - i,
    {
        dst.push(src[i]);
        assert(dst@ == old(dst)@ + src@.subrange(0, i + 1 as int));
        i = i + 1;
    }
    assert(src@.subrange(0, src@.len() as int) == src@);
}

/// Copies `src[start..end]` into a fresh vector.
fn copy_range(src: &[u8], start: usize, end: usize) -> (r: Vec<u8>)
    requires
        start <= end <= src@.len(),
    ensures
        r@ == src@.subrange(start as int, end as int),
{
    let mut out: Vec<u8> = Vec::new();
    let mut i: usize = start;
    while i < end
        invariant
            start <= i <= end <= src@.len(),
            out@ == src@.subrange(start as int, i as int),
        decreases end - i,
    {
        out.push(src[i]);
        assert(out@ == src@.subrange(start as int, i + 1 as int));
        i = i + 1;
    }
    out
}

/// Builds the envelope for a caller-supplied nonce: `nonce ‖ ciphertext ‖ tag`.
///
/// The caller is responsible for nonce uniqueness under the key; `encrypt`
/// draws the nonce from a secure random source and is the normal entry
/// point. Succeeds exactly when the key is valid, and the envelope it
/// returns decrypts, under the same key, to exactly the plaintext.
pub fn encrypt_with_nonce(plaintext: &[u8], key: &[u8], nonce: &[u8]) -> (r: Result<
    Vec<u8>,
    CodecError,
>)
    requires
        nonce@.len() == NONCE_LEN,
        plaintext@.len() <= MAX_PLAINTEXT_LEN,
        plaintext@.len() + NONCE_LEN + TAG_LEN <= usize::MAX,
    ensures
        (r is Ok) == valid_key(key@),
        r matches Err(e) ==> e == CodecError::InvalidKey,
        r matches Ok(env) ==> env@ == envelope_of(key@, nonce@, plaintext@),
        r matches Ok(env) ==> env@.len() == plaintext@.len() + NONCE_LEN + TAG_LEN,
        r matches Ok(env) ==> decrypt_model(env@, key@) == Ok::<Seq<u8>, CodecError>(plaintext@),
{
    if key.len() != KEY_LEN {
        return Err(CodecError::InvalidKey);
    }
    let sealed = aead_seal(key, nonce, plaintext);
    let mut env: Vec<u8> = Vec::new();
    append_bytes(&mut env, nonce);
    append_bytes(&mut env, sealed.as_slice());
    proof {
        assert(env@ == nonce@ + sealed@);
        assert(envelope_nonce(env@) =~= nonce@);
        assert(envelope_body(env@) =~= sealed@);
    }
    Ok(env)
}

/// Encrypts a plaintext under a 256-bit key into a self-contained envelope.
///
/// A fresh 12-byte nonce is drawn from a secure random source; the result is
/// `nonce ‖ ciphertext ‖ tag`. Fails with `InvalidKey` exactly when the key
/// is not 32 bytes, and with `RandomnessFailed` only when the random source
/// refuses. Any envelope it returns decrypts, under the same key, to
/// exactly the plaintext: the round-trip law is part of this contract.
pub fn encrypt(plaintext: &[u8], key: &[u8]) -> (r: Result<Vec<u8>, CodecError>)
    requires
        plaintext@.len() <= MAX_PLAINTEXT_LEN,
        plaintext@.len() + NONCE_LEN + TAG_LEN <= usize::MAX,
    ensures
        !valid_key(key@) ==> r == Err::<Vec<u8>, CodecError>(CodecError::InvalidKey),
        r matches Err(e) ==> (e == CodecError::InvalidKey || e == CodecError::RandomnessFailed),
        valid_key(key@) && r is Err ==> r == Err::<Vec<u8>, CodecError>(
            CodecError::RandomnessFailed,
        ),
        r matches Ok(env) ==> valid_key(key@) && env@.len() == plaintext@.len() + NONCE_LEN
            + TAG_LEN && env@ == envelope_of(key@, envelope_nonce(env@), plaintext@),
        r matches Ok(env) ==> decrypt_model(env@, key@) == Ok::<Seq<u8>, CodecError>(plaintext@),
{
    if key.len() != KEY_LEN {
        return Err(CodecError::InvalidKey);
    }
    let nonce = match random_nonce() {
        Ok(n) => n,
        Err(_) => {
            return Err(CodecError::RandomnessFailed);
        },
    };
    let env = match encrypt_with_nonce(plaintext, key, nonce.as_slice()) {
        Ok(env) => env,
        Err(e) => {
            return Err(e);
        },
    };
    proof {
        assert(envelope_nonce(env@) =~= nonce@);
    }
    Ok(env)
}

/// Decrypts an envelope under a 256-bit key.
///
/// Splits the input into its 12-byte nonce and the ciphertext-with-tag and
/// performs authenticated opening. An input shorter than a nonce is
/// `MalformedEnvelope`; a key that is not 32 bytes is `InvalidKey`; a tag
/// that does not verify — wrong key, corruption or tampering alike — is the
/// single error `AuthenticationFailed`, and no partially decrypted bytes
/// are ever returned. The result is exactly `decrypt_model`.
pub fn decrypt(envelope: &[u8], key: &[u8]) -> (r: Result<Vec<u8>, CodecError>)
    ensures
        models(r, decrypt_model(envelope@, key@)),
{
    if envelope.len() < NONCE_LEN {
        return Err(CodecError::MalformedEnvelope);
    }
    if key.len() != KEY_LEN {
        return Err(CodecError::InvalidKey);
    }
    let nonce = copy_range(envelope, 0, NONCE_LEN);
    let body = copy_range(envelope, NONCE_LEN, envelope.len());
    match aead_open(key, nonce.as_slice(), body.as_slice()) {
        Ok(p) => Ok(p),
        Err(_) => Err(CodecError::AuthenticationFailed),
    }
}

} // verus!
