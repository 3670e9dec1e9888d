use chacha20poly1305::{AeadInPlace, ChaCha20Poly1305, KeyInit, Nonce, Tag};
use netcode::crypto::{decrypt, encrypt, generate_key, Error, MAC_SIZE, PRIVATE_KEY_SIZE};

#[test]
fn buf_too_small() {
    let mut buffer: Vec<u8> = Vec::new();
    let nonce = 0;
    let key = generate_key().unwrap();
    let result = encrypt(&mut buffer, None, nonce, &key);
    assert!(result.is_err());
}

#[test]
fn encrypt_decrypt_zero_sized_buffer() {
    // 16 bytes is the minimum size, which means the actual plaintext is empty
    let mut buffer = vec![0u8; MAC_SIZE];
    let nonce = 0;
    let key = generate_key().unwrap();
    encrypt(&mut buffer, None, nonce, &key).unwrap();

    // The buffer should have been modified
    assert_ne!(buffer, vec![0u8; MAC_SIZE]);

    decrypt(&mut buffer, None, nonce, &key).unwrap();
}

#[test]
fn generate_key_succeeds() {
    let key = generate_key().unwrap();
    assert_eq!(key.len(), PRIVATE_KEY_SIZE);
}

#[test]
fn generated_keys_are_filled_and_differ() {
    let first = generate_key().unwrap();
    let second = generate_key().unwrap();
    assert_ne!(first, [0u8; PRIVATE_KEY_SIZE]);
    assert_ne!(first, second);
}

fn sealed_hello(key: &[u8; PRIVATE_KEY_SIZE], nonce: u64) -> Vec<u8> {
    let mut buffer = b"hello".to_vec();
    buffer.extend_from_slice(&[0u8; MAC_SIZE]);
    encrypt(&mut buffer, None, nonce, key).unwrap();
    buffer
}

#[test]
fn hello_round_trip() {
    // Test-only all-zero key; never use such a key in production.
    let key = [0u8; PRIVATE_KEY_SIZE];
    let mut buffer = sealed_hello(&key, 0);
    assert_eq!(buffer.len(), 5 + MAC_SIZE);
    assert_ne!(&buffer[..5], b"hello");

    decrypt(&mut buffer, None, 0, &key).unwrap();
    assert_eq!(&buffer[..5], b"hello");
}

#[test]
fn open_with_wrong_nonce_fails() {
    let key = [0u8; PRIVATE_KEY_SIZE];
    let sealed = sealed_hello(&key, 0);

    let mut tampered = sealed.clone();
    let result = decrypt(&mut tampered, None, 1, &key);
    assert!(matches!(result, Err(Error::Failed)));
    assert_eq!(tampered, sealed);
}

#[test]
fn open_with_wrong_key_fails() {
    let key = [0u8; PRIVATE_KEY_SIZE];
    let mut sealed = sealed_hello(&key, 0);
    let other_key = [1u8; PRIVATE_KEY_SIZE];
    let result = decrypt(&mut sealed, None, 0, &other_key);
    assert!(matches!(result, Err(Error::Failed)));
}

#[test]
fn open_with_wrong_associated_data_fails() {
    let key = [3u8; PRIVATE_KEY_SIZE];
    let mut buffer = b"payload".to_vec();
    buffer.extend_from_slice(&[0u8; MAC_SIZE]);
    encrypt(&mut buffer, Some(b"header-a"), 42, &key).unwrap();

    let mut wrong = buffer.clone();
    let result = decrypt(&mut wrong, Some(b"header-b"), 42, &key);
    assert!(matches!(result, Err(Error::Failed)));

    decrypt(&mut buffer, Some(b"header-a"), 42, &key).unwrap();
    assert_eq!(&buffer[..7], b"payload");
}

#[test]
fn absent_and_empty_associated_data_agree() {
    let key = [5u8; PRIVATE_KEY_SIZE];
    let mut buffer = b"data".to_vec();
    buffer.extend_from_slice(&[0u8; MAC_SIZE]);
    encrypt(&mut buffer, None, 9, &key).unwrap();
    decrypt(&mut buffer, Some(b""), 9, &key).unwrap();
    assert_eq!(&buffer[..4], b"data");
}

#[test]
fn flipping_any_ciphertext_or_tag_bit_fails_authentication() {
    let key = [0u8; PRIVATE_KEY_SIZE];
    let sealed = sealed_hello(&key, 0);
    for byte in 0..sealed.len() {
        for bit in 0..8 {
            let mut tampered = sealed.clone();
            tampered[byte] ^= 1 << bit;
            let result = decrypt(&mut tampered, None, 0, &key);
            assert!(matches!(result, Err(Error::Failed)));
        }
    }
}

#[test]
fn decrypt_buf_too_small() {
    let mut buffer = vec![0u8; MAC_SIZE - 1];
    let key = [0u8; PRIVATE_KEY_SIZE];
    let before = buffer.clone();
    let result = decrypt(&mut buffer, None, 0, &key);
    assert!(matches!(result, Err(Error::BufferSizeMismatch)));
    assert_eq!(buffer, before);

    let mut empty: Vec<u8> = Vec::new();
    let result = encrypt(&mut empty, None, 0, &key);
    assert!(matches!(result, Err(Error::BufferSizeMismatch)));
}

#[test]
fn nonce_layout_matches_zero_padded_little_endian() {
    // Seal through the library, then open directly with the cipher and a
    // hand-built 12-byte nonce: four zero bytes, then the counter in
    // little-endian order. This pins the wire-level nonce derivation.
    let key = [7u8; PRIVATE_KEY_SIZE];
    let nonce: u64 = 0x0102030405060708;
    let mut buffer = b"abcdef".to_vec();
    buffer.extend_from_slice(&[0u8; MAC_SIZE]);
    encrypt(&mut buffer, None, nonce, &key).unwrap();

    let nonce_bytes = [0u8, 0, 0, 0, 0x08, 0x07, 0x06, 0x05, 0x04, 0x03, 0x02, 0x01];
    let (ct, tag) = buffer.split_at_mut(6);
    ChaCha20Poly1305::new(&key.into())
        .decrypt_in_place_detached(Nonce::from_slice(&nonce_bytes), b"", ct, Tag::from_slice(tag))
        .unwrap();
    assert_eq!(ct, b"abcdef");
}
