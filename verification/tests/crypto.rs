use aes_gcm::aead::{Aead, KeyInit};
use base64::Engine;
use comms::crypto::{
    decrypt, decrypt_opt, encrypt, encrypt_opt, encrypt_with, get_or_create_key, is_sealed,
    key_text, stored_key, VERSION_PREFIX,
};

const KEY: [u8; 32] = [0xAB; 32];

#[test]
fn encrypt_decrypt_roundtrip() {
    let plaintext = "hello, this is sensitive chat content";
    let encrypted = encrypt(&KEY, plaintext).unwrap();
    assert!(encrypted.starts_with(VERSION_PREFIX));
    assert_ne!(encrypted, plaintext);
    assert_eq!(decrypt(&KEY, &encrypted).unwrap(), plaintext);
}

#[test]
fn decrypt_passes_through_legacy_plaintext() {
    let legacy = "plain text written before encryption existed";
    assert_eq!(decrypt(&KEY, legacy).unwrap(), legacy);
}

#[test]
fn encrypt_opt_and_decrypt_opt_handle_none() {
    assert_eq!(encrypt_opt(&KEY, None).unwrap(), None);
    assert_eq!(decrypt_opt(&KEY, None).unwrap(), None);
}

#[test]
fn encrypting_the_same_plaintext_twice_yields_different_ciphertext() {
    let a = encrypt(&KEY, "same content").unwrap();
    let b = encrypt(&KEY, "same content").unwrap();
    assert_ne!(a, b, "nonces should differ between calls");
}

#[test]
fn a_sealed_text_is_the_nonce_and_the_ciphertext_in_base64() {
    let sealed = encrypt_with(&[0; 32], &[0; 12], "").unwrap();
    assert_eq!(sealed.len(), 3 + 40);
    assert!(sealed.starts_with("v1:AAAAAAAAAAAAAAAA"));
    assert_eq!(
        encrypt_with(&[0; 32], &[0; 12], "same").unwrap(),
        encrypt_with(&[0; 32], &[0; 12], "same").unwrap()
    );
}

#[test]
fn two_nonces_give_two_stored_texts_and_neither_is_the_text() {
    let one = encrypt_with(&KEY, &[1; 12], "same content").unwrap();
    let two = encrypt_with(&KEY, &[2; 12], "same content").unwrap();
    assert_ne!(one, two);
    assert!(is_sealed(&one) && !is_sealed("same content"));
    // What is stored is sealed again like any other text.
    assert_ne!(encrypt(&KEY, &one).unwrap(), one);
    assert_eq!(one.len(), 3 + (12 + 12 + 16 + 2) / 3 * 4);
}

#[test]
fn another_key_does_not_open_it() {
    let sealed = encrypt(&KEY, "secret").unwrap();
    assert_eq!(
        decrypt(&[1; 32], &sealed).unwrap_err(),
        "Decryption failed (wrong key or corrupt data): aead::Error"
    );
}

#[test]
fn what_is_no_sealed_text_behind_the_mark_is_refused() {
    let garbled = decrypt(&KEY, "v1:not base64!").unwrap_err();
    assert!(
        garbled.starts_with("Corrupt encrypted value: Invalid symbol"),
        "{garbled}"
    );
    assert_eq!(
        decrypt(&KEY, "v1:AAAA").unwrap_err(),
        "Corrupt encrypted value: too short"
    );
}

#[test]
fn what_was_sealed_has_to_be_a_text() {
    let nonce = [7u8; 12];
    let ciphertext = aes_gcm::Aes256Gcm::new((&KEY).into())
        .encrypt((&nonce).into(), &[b'a', 0xff][..])
        .unwrap();
    let mut combined = nonce.to_vec();
    combined.extend(ciphertext);
    let stored = format!(
        "v1:{}",
        base64::engine::general_purpose::STANDARD.encode(combined)
    );
    let error = decrypt(&KEY, &stored).unwrap_err();
    assert_eq!(
        error,
        "Decrypted value is not valid UTF-8: invalid utf-8 sequence of 1 bytes from index 1"
    );
    // What the crates seal by themselves, the library opens.
    let ciphertext = aes_gcm::Aes256Gcm::new((&KEY).into())
        .encrypt((&nonce).into(), &b"plain"[..])
        .unwrap();
    let mut combined = nonce.to_vec();
    combined.extend(ciphertext);
    let stored = format!(
        "v1:{}",
        base64::engine::general_purpose::STANDARD.encode(combined)
    );
    assert_eq!(decrypt(&KEY, &stored).unwrap(), "plain");
    assert_eq!(stored, encrypt_with(&KEY, &nonce, "plain").unwrap());
}

#[test]
fn optional_texts_round_trip() {
    let sealed = encrypt_opt(&KEY, Some("x")).unwrap();
    assert_ne!(sealed, Some("x".to_string()));
    assert_eq!(decrypt_opt(&KEY, sealed).unwrap(), Some("x".to_string()));
}

#[test]
fn a_key_is_kept_as_base64_and_read_back() {
    assert_eq!(
        key_text(&[0; 32]),
        "AAAAAAAAAAAAAAAAAAAAAAAAAAAAAAAAAAAAAAAAAAA="
    );
    assert_eq!(stored_key(&key_text(&KEY)).unwrap(), KEY);
    assert_eq!(
        stored_key("AAAA").unwrap_err(),
        "Stored db encryption key has the wrong length"
    );
    assert!(stored_key("?")
        .unwrap_err()
        .starts_with("Stored db encryption key is corrupt: "));
}

#[test]
fn a_missing_key_is_made_and_a_kept_one_is_read() {
    let (key, kept) = get_or_create_key(None).unwrap();
    let kept = kept.expect("a new key has to be kept");
    assert_eq!(get_or_create_key(Some(&kept)), Ok((key, None)));
    let (other, _) = get_or_create_key(None).unwrap();
    assert_ne!(key, other);
    assert!(get_or_create_key(Some("AAAA")).is_err());
}
