use anirust::cipher::{
    base64_decode, decrypt, decrypt_aes_256_cbc, derive_key_iv, encrypt_aes_256_cbc, md5_digest,
};
use anirust::errors::AniRustError;

#[test]
fn cipher_round_trip() {
    let iv: Vec<u8> = (0u8..16).collect();
    let key: Vec<u8> = (100u8..132).collect();
    let plaintext = b"for all keys and ivs, decrypt inverts encrypt".to_vec();
    let ciphertext = encrypt_aes_256_cbc(&iv, &key, &plaintext);
    assert_ne!(ciphertext, plaintext);
    let recovered = decrypt_aes_256_cbc(&iv, &key, &ciphertext);
    assert_eq!(recovered, Some(plaintext));
}

#[test]
fn cipher_round_trip_empty_plaintext() {
    let iv = [9u8; 16];
    let key = [7u8; 32];
    let ciphertext = encrypt_aes_256_cbc(&iv, &key, b"");
    let recovered = decrypt_aes_256_cbc(&iv, &key, &ciphertext);
    assert_eq!(recovered, Some(Vec::new()));
}

#[test]
fn encrypt_known_vector() {
    // A 13-byte plaintext pads to one block; the exact ciphertext pins
    // the cipher, key order and IV handling against regression.
    let iv = b"1234567890123456";
    let key = b"01234567890123456789012345678901";
    let ciphertext = encrypt_aes_256_cbc(iv, key, b"Hello, world!");
    assert_eq!(
        ciphertext,
        vec![78, 31, 71, 214, 234, 222, 203, 132, 56, 163, 3, 54, 133, 41, 130, 40]
    );
}

#[test]
fn decrypt_rejects_bad_padding() {
    let iv = [0u8; 16];
    let key = [1u8; 32];
    // Not a multiple of the block size: decryption must err, never
    // hand back garbage.
    assert_eq!(decrypt_aes_256_cbc(&iv, &key, &[1, 2, 3]), None);
}

#[test]
fn md5_digest_known_vector() {
    let d = md5_digest(&b"abc".to_vec());
    assert_eq!(
        d,
        vec![
            0x90, 0x01, 0x50, 0x98, 0x3c, 0xd2, 0x4f, 0xb0, 0xd6, 0x96, 0x3f, 0x7d, 0x28, 0xe1,
            0x7f, 0x72
        ]
    );
}

#[test]
fn base64_decode_basics() {
    assert_eq!(base64_decode("aGVsbG8="), Some(b"hello".to_vec()));
    assert_eq!(base64_decode("not base64!"), None);
}

#[test]
fn derivation_is_deterministic() {
    let password = b"swordfish".to_vec();
    let salt = b"12345678".to_vec();
    let (k1, iv1) = derive_key_iv(&password, &salt);
    let (k2, iv2) = derive_key_iv(&password, &salt);
    assert_eq!(k1, k2);
    assert_eq!(iv1, iv2);
    assert_eq!(k1.len(), 32);
    assert_eq!(iv1.len(), 16);
}

#[test]
fn derivation_is_salt_sensitive() {
    let password = b"swordfish".to_vec();
    for flip in 0..8usize {
        let salt = b"12345678".to_vec();
        let mut other = salt.clone();
        other[flip] ^= 1;
        let (k1, iv1) = derive_key_iv(&password, &salt);
        let (k2, iv2) = derive_key_iv(&password, &other);
        assert_ne!(k1, k2);
        assert_ne!(iv1, iv2);
    }
}

#[test]
fn derivation_matches_chained_md5() {
    let password = b"pw".to_vec();
    let salt = b"saltsalt".to_vec();
    let (key, iv) = derive_key_iv(&password, &salt);
    let pwsalt = [password.clone(), salt.clone()].concat();
    let d0 = md5::compute(&pwsalt).0.to_vec();
    let d1 = md5::compute([d0.clone(), pwsalt.clone()].concat()).0.to_vec();
    let d2 = md5::compute([d1.clone(), pwsalt.clone()].concat()).0.to_vec();
    assert_eq!(key, [d0, d1].concat());
    assert_eq!(iv, d2);
}

#[test]
fn decrypt_salted_round_trip() {
    let secret = "opensesame";
    let plaintext = "a little plaintext";
    let salt = b"87654321".to_vec();
    let (key, iv) = derive_key_iv(&secret.as_bytes().to_vec(), &salt);
    let ciphertext = encrypt_aes_256_cbc(&iv, &key, plaintext.as_bytes());
    let blob = [b"Salted__".to_vec(), salt, ciphertext].concat();
    let encoded = base64::encode(blob);
    assert_eq!(decrypt(&encoded, secret, None), Ok(plaintext.to_string()));
}

#[test]
fn decrypt_rejects_bad_base64() {
    assert_eq!(
        decrypt("@@not base64@@", "secret", None),
        Err(AniRustError::DecryptionFailed)
    );
}

#[test]
fn decrypt_rejects_short_blob() {
    // Valid base64, but shorter than the 16-byte salted header.
    assert_eq!(
        decrypt("aGVsbG8=", "secret", None),
        Err(AniRustError::DecryptionFailed)
    );
}

#[test]
fn decrypt_with_caller_iv() {
    let key = "01234567890123456789012345678901";
    let iv = b"1234567890123456".to_vec();
    let ciphertext = encrypt_aes_256_cbc(&iv, key.as_bytes(), b"Hello, world!");
    let encoded = base64::encode(ciphertext);
    assert_eq!(
        decrypt(&encoded, key, Some(iv)),
        Ok("Hello, world!".to_string())
    );
}
