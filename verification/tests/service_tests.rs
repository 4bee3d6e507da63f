use base64::Engine;
use secure_file_sharing::codec::decrypt;
use secure_file_sharing::registry::{FetchError, Registry};
use secure_file_sharing::service::{decrypt_encoded, encrypt_and_publish};
use secure_file_sharing::CodecError;

const NOW: u64 = 1_700_000_000;

fn key_a() -> Vec<u8> {
    (0u8..32).collect()
}

fn key_b() -> Vec<u8> {
    (100u8..132).collect()
}

#[test]
fn published_example_share_round_trips_once() {
    let mut registry = Registry::new();
    let result = encrypt_and_publish(
        &mut registry,
        &[0x01, 0x02, 0x03],
        &key_a(),
        "a.txt".to_string(),
        3600,
        NOW,
    )
    .unwrap();
    assert_eq!(result.share_code.len(), 36);

    let response = registry.fetch(&result.share_code, NOW).unwrap();
    assert_eq!(response.encrypted, result.encrypted);
    assert_eq!(response.original_filename, "a.txt");

    let envelope = base64::engine::general_purpose::STANDARD
        .decode(&response.encrypted)
        .unwrap();
    assert_eq!(envelope.len(), 3 + 12 + 16);
    assert_eq!(decrypt(&envelope, &key_a()).unwrap(), vec![0x01, 0x02, 0x03]);

    assert_eq!(
        registry.fetch(&result.share_code, NOW),
        Err(FetchError::NotFound)
    );
}

#[test]
fn decrypt_encoded_recovers_the_file_bytes() {
    let mut registry = Registry::new();
    let file_bytes = b"the whole file".to_vec();
    let result = encrypt_and_publish(
        &mut registry,
        &file_bytes,
        &key_a(),
        "file.bin".to_string(),
        3600,
        NOW,
    )
    .unwrap();
    let response = registry.fetch(&result.share_code, NOW).unwrap();
    assert_eq!(decrypt_encoded(&response.encrypted, &key_a()).unwrap(), file_bytes);
}

#[test]
fn decrypt_encoded_with_wrong_key_fails_authentication() {
    let mut registry = Registry::new();
    let result = encrypt_and_publish(
        &mut registry,
        b"payload",
        &key_a(),
        "p".to_string(),
        3600,
        NOW,
    )
    .unwrap();
    assert_eq!(
        decrypt_encoded(&result.encrypted, &key_b()),
        Err(CodecError::AuthenticationFailed)
    );
}

#[test]
fn decrypt_encoded_rejects_text_that_is_not_base64() {
    assert_eq!(
        decrypt_encoded("!!! not base64 !!!", &key_a()),
        Err(CodecError::MalformedEnvelope)
    );
}

#[test]
fn decrypt_encoded_rejects_non_canonical_base64() {
    // "YWJjZA" is valid unpadded text for the bytes "abcd"; the canonical
    // encoder always pads, so the decoder must refuse it.
    assert_eq!(
        decrypt_encoded("YWJjZA", &key_a()),
        Err(CodecError::MalformedEnvelope)
    );
}

#[test]
fn decrypt_encoded_rejects_an_envelope_shorter_than_a_nonce() {
    let short = base64::engine::general_purpose::STANDARD.encode([1u8, 2, 3]);
    assert_eq!(
        decrypt_encoded(&short, &key_a()),
        Err(CodecError::MalformedEnvelope)
    );
}

#[test]
fn publishing_with_a_bad_key_fails_and_shares_nothing() {
    let mut registry = Registry::new();
    let result = encrypt_and_publish(
        &mut registry,
        b"data",
        &vec![0u8; 16],
        "x".to_string(),
        3600,
        NOW,
    );
    assert!(matches!(result, Err(CodecError::InvalidKey)));
}
