use secure_file_sharing::codec::{decrypt, encrypt, encrypt_with_nonce};
use secure_file_sharing::CodecError;

fn key_a() -> Vec<u8> {
    (0u8..32).collect()
}

fn key_b() -> Vec<u8> {
    (100u8..132).collect()
}

#[test]
fn round_trip_returns_plaintext() {
    let plaintext = b"attack at dawn".to_vec();
    let envelope = encrypt(&plaintext, &key_a()).unwrap();
    let decrypted = decrypt(&envelope, &key_a()).unwrap();
    assert_eq!(decrypted, plaintext);
}

#[test]
fn round_trip_empty_plaintext() {
    let plaintext: Vec<u8> = Vec::new();
    let envelope = encrypt(&plaintext, &key_a()).unwrap();
    assert_eq!(envelope.len(), 28);
    let decrypted = decrypt(&envelope, &key_a()).unwrap();
    assert_eq!(decrypted, plaintext);
}

#[test]
fn envelope_is_plaintext_length_plus_nonce_and_tag() {
    let plaintext = vec![7u8; 100];
    let envelope = encrypt(&plaintext, &key_a()).unwrap();
    assert_eq!(envelope.len(), 100 + 12 + 16);
}

#[test]
fn tampering_with_any_single_bit_fails_authentication() {
    let plaintext = vec![0x01, 0x02, 0x03];
    let envelope = encrypt(&plaintext, &key_a()).unwrap();
    for byte_index in 0..envelope.len() {
        for bit in 0..8 {
            let mut tampered = envelope.clone();
            tampered[byte_index] ^= 1u8 << bit;
            assert_eq!(
                decrypt(&tampered, &key_a()),
                Err(CodecError::AuthenticationFailed),
                "flipping bit {} of byte {} must not decrypt",
                bit,
                byte_index
            );
        }
    }
}

#[test]
fn wrong_key_fails_authentication() {
    let plaintext = b"secret".to_vec();
    let envelope = encrypt(&plaintext, &key_a()).unwrap();
    assert_eq!(
        decrypt(&envelope, &key_b()),
        Err(CodecError::AuthenticationFailed)
    );
}

#[test]
fn nonces_differ_between_encryptions() {
    let plaintext = b"same message".to_vec();
    let first = encrypt(&plaintext, &key_a()).unwrap();
    let second = encrypt(&plaintext, &key_a()).unwrap();
    assert_ne!(&first[..12], &second[..12]);
}

#[test]
fn short_envelope_is_malformed() {
    assert_eq!(
        decrypt(&Vec::new(), &key_a()),
        Err(CodecError::MalformedEnvelope)
    );
    assert_eq!(
        decrypt(&vec![0u8; 11], &key_a()),
        Err(CodecError::MalformedEnvelope)
    );
}

#[test]
fn twelve_byte_envelope_is_not_malformed_but_fails_authentication() {
    assert_eq!(
        decrypt(&vec![0u8; 12], &key_a()),
        Err(CodecError::AuthenticationFailed)
    );
}

#[test]
fn encrypt_rejects_wrong_key_lengths() {
    let plaintext = b"x".to_vec();
    assert_eq!(
        encrypt(&plaintext, &vec![0u8; 31]),
        Err(CodecError::InvalidKey)
    );
    assert_eq!(
        encrypt(&plaintext, &vec![0u8; 33]),
        Err(CodecError::InvalidKey)
    );
    assert_eq!(encrypt(&plaintext, &Vec::new()), Err(CodecError::InvalidKey));
}

#[test]
fn decrypt_rejects_wrong_key_lengths() {
    let envelope = encrypt(&b"x".to_vec(), &key_a()).unwrap();
    assert_eq!(
        decrypt(&envelope, &vec![0u8; 31]),
        Err(CodecError::InvalidKey)
    );
}

#[test]
fn sealing_is_deterministic_for_a_fixed_nonce() {
    let plaintext = b"deterministic".to_vec();
    let nonce = vec![9u8; 12];
    let first = encrypt_with_nonce(&plaintext, &key_a(), &nonce).unwrap();
    let second = encrypt_with_nonce(&plaintext, &key_a(), &nonce).unwrap();
    assert_eq!(first, second);
    assert_eq!(&first[..12], &nonce[..]);
    assert_eq!(decrypt(&first, &key_a()).unwrap(), plaintext);
}

#[test]
fn ciphertext_is_not_the_plaintext() {
    let plaintext = vec![0u8; 32];
    let envelope = encrypt(&plaintext, &key_a()).unwrap();
    assert_ne!(&envelope[12..12 + 32], &plaintext[..]);
}
