use mindchat_core::cipher::{decrypt_state, encrypt_state, is_encrypted_blob};
use mindchat_core::persistence::PersistenceError;

const MAGIC: &[u8] = b"MINDCHAT\x01";
const NONCE_LEN: usize = 12;

fn test_key(byte: u8) -> [u8; 32] {
    [byte; 32]
}

#[test]
fn round_trips_arbitrary_plaintext() {
    let plaintext = b"{\"schema_version\":1,\"snapshot\":{}}".to_vec();
    let blob = encrypt_state(&plaintext, &test_key(7)).expect("encrypt succeeds");
    let decrypted = decrypt_state(&blob, &test_key(7)).expect("decrypt succeeds");
    assert_eq!(decrypted, plaintext);
}

#[test]
fn wrong_key_fails_authentication() {
    let blob = encrypt_state(b"secret", &test_key(1)).expect("encrypt succeeds");
    assert!(matches!(decrypt_state(&blob, &test_key(2)), Err(PersistenceError::Decryption)));
}

#[test]
fn garbage_without_magic_is_not_encrypted_error() {
    assert!(matches!(
        decrypt_state(b"this is not json at all", &test_key(1)),
        Err(PersistenceError::NotEncrypted)
    ));
}

#[test]
fn truncated_magic_is_not_encrypted_error() {
    assert!(matches!(decrypt_state(b"MINDCHAT", &test_key(1)), Err(PersistenceError::NotEncrypted)));
}

#[test]
fn valid_magic_with_truncated_body_is_not_encrypted_error() {
    let mut blob = MAGIC.to_vec();
    blob.extend_from_slice(&[0u8; 5]);
    assert!(matches!(decrypt_state(&blob, &test_key(1)), Err(PersistenceError::NotEncrypted)));
}

#[test]
fn tampered_ciphertext_fails_authentication() {
    let mut blob = encrypt_state(b"secret", &test_key(1)).expect("encrypt succeeds");
    let last = blob.len() - 1;
    blob[last] ^= 0x01;
    assert!(matches!(decrypt_state(&blob, &test_key(1)), Err(PersistenceError::Decryption)));
}

#[test]
fn nonces_differ_between_saves() {
    let first = encrypt_state(b"same input", &test_key(3)).expect("first encrypt");
    let second = encrypt_state(b"same input", &test_key(3)).expect("second encrypt");
    assert_ne!(&first[MAGIC.len()..MAGIC.len() + NONCE_LEN], &second[MAGIC.len()..]);
    assert_ne!(first, second);
}

#[test]
fn encrypted_output_is_not_parseable_json() {
    let blob = encrypt_state(b"{\"looks\":\"like json\"}", &test_key(4)).expect("encrypt");
    assert!(serde_json::from_slice::<serde_json::Value>(&blob).is_err());
}

#[test]
fn encrypted_blob_carries_header_nonce_and_tag() {
    let blob = encrypt_state(b"abc", &test_key(5)).expect("encrypt");
    assert!(is_encrypted_blob(&blob));
    assert_eq!(&blob[..MAGIC.len()], MAGIC);
    assert_eq!(blob.len(), MAGIC.len() + NONCE_LEN + 3 + 16);
    assert!(!is_encrypted_blob(b"{\"schema_version\":1}"));
}

#[test]
fn empty_plaintext_round_trips() {
    let blob = encrypt_state(b"", &test_key(6)).expect("encrypt");
    assert_eq!(decrypt_state(&blob, &test_key(6)).expect("decrypt"), Vec::<u8>::new());
}

#[test]
fn sealing_with_a_given_nonce_is_deterministic_and_opens_again() {
    let key = [7u8; 32];
    let nonce = [3u8; 12];
    let first = mindchat_core::cipher::seal_state_with_nonce(b"state", &key, &nonce).expect("sealed");
    let second = mindchat_core::cipher::seal_state_with_nonce(b"state", &key, &nonce).expect("sealed");
    assert_eq!(first, second);
    assert_eq!(first.len(), 5 + 37);
    assert_eq!(&first[..9], b"MINDCHAT\x01");
    assert_eq!(&first[9..21], &nonce);
    assert_eq!(mindchat_core::cipher::decrypt_state(&first, &key).expect("opened"), b"state".to_vec());
}
