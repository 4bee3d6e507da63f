//! The request/response flows the caller drives: encrypt a file's bytes and
//! publish them as a single-use share, and decode-and-decrypt a fetched
//! share on the recipient's side.
use vstd::prelude::*;

use crate::CodecError;
use crate::codec;
use crate::codec::{decrypt_model, models, valid_key, MAX_PLAINTEXT_LEN, NONCE_LEN, TAG_LEN};
use crate::encoding::{base64_decode, base64_encode, base64_of};
use crate::registry::{Registry, ShareEntryModel, DEFAULT_USES, SHARE_CODE_LEN};

verus! {

/// What publishing an encrypted file hands back: the envelope as base64
/// text and the share code under which the registry holds it.
#[derive(Clone, Debug, PartialEq, Eq)]
pub struct EncryptedFileResult {
    pub encrypted: String,
    pub share_code: String,
}

/// Encrypts a file's bytes under a 256-bit key and publishes the encoded
/// envelope as a single-use share that lives `ttl_secs` from `now_secs`.
///
/// On success the returned text is the base64 of an envelope that
/// decrypts, under the same key, to exactly the file's bytes, and the
/// registry holds exactly that text under the returned fixed-length code.
/// Failure leaves the registry untouched: `InvalidKey` exactly when the
/// key is not 32 bytes, and otherwise only `RandomnessFailed`, when the
/// secure random source refuses a nonce or a code.
pub fn encrypt_and_publish(
    registry: &mut Registry,
    file_bytes: &[u8],
    key: &[u8],
    display_name: String,
    ttl_secs: u64,
    now_secs: u64,
) -> (r: Result<EncryptedFileResult, CodecError>)
    requires
        old(registry).wf(),
        file_bytes@.len() <= MAX_PLAINTEXT_LEN,
        file_bytes@.len() + NONCE_LEN + TAG_LEN <= usize::MAX,
        now_secs + ttl_secs <= u64::MAX,
    ensures
        final(registry).wf(),
        !valid_key(key@) ==> (r matches Err(e) && e == CodecError::InvalidKey),
        valid_key(key@) && r is Err ==> r == Err::<EncryptedFileResult, CodecError>(
            CodecError::RandomnessFailed,
        ),
        r is Err ==> final(registry)@ == old(registry)@,
        r matches Ok(res) ==> valid_key(key@) && res.share_code@.len() == SHARE_CODE_LEN && (exists|
            env: Seq<u8>,
        |
            #[trigger] base64_of(env) == res.encrypted@ && env.len() == file_bytes@.len()
                + NONCE_LEN + TAG_LEN && decrypt_model(env, key@) == Ok::<Seq<u8>, CodecError>(
                file_bytes@,
            )) && final(registry)@ == old(registry)@.insert(
            res.share_code@,
            ShareEntryModel {
                encoded_envelope: res.encrypted@,
                expiry: (now_secs + ttl_secs) as u64,
                remaining_uses: DEFAULT_USES,
                display_name: display_name@,
            },
        ),
{
    let envelope = match codec::encrypt(file_bytes, key) {
        Ok(env) => env,
        Err(e) => {
            return Err(e);
        },
    };
    let encrypted = base64_encode(envelope.as_slice());
    let share_code = match registry.publish(encrypted.clone(), display_name, ttl_secs, now_secs) {
        Ok(code) => code,
        Err(_) => {
            return Err(CodecError::RandomnessFailed);
        },
    };
    proof {
        assert(base64_of(envelope@) == encrypted@);
    }
    Ok(EncryptedFileResult { encrypted, share_code })
}

/// Decodes base64 text into an envelope and decrypts it under a 256-bit
/// key: the recipient's side of a share.
///
/// Text that no byte sequence encodes to is `MalformedEnvelope`; otherwise
/// the result is exactly what `decrypt` returns on the encoded envelope,
/// so text produced by `encrypt_and_publish` yields the original file
/// bytes under the same key.
pub fn decrypt_encoded(encoded: &str, key: &[u8]) -> (r: Result<Vec<u8>, CodecError>)
    ensures
        forall|env: Seq<u8>| #[trigger]
            base64_of(env) == encoded@ ==> models(r, decrypt_model(env, key@)),
        (forall|env: Seq<u8>| #[trigger] base64_of(env) != encoded@) ==> r == Err::<
            Vec<u8>,
            CodecError,
        >(CodecError::MalformedEnvelope),
{
    let envelope = match base64_decode(encoded) {
        Ok(v) => v,
        Err(_) => {
            return Err(CodecError::MalformedEnvelope);
        },
    };
    codec::decrypt(envelope.as_slice(), key)
}

} // verus!
