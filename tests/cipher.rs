use chacha20::cipher::{KeyIvInit, StreamCipher};
use chacha20::ChaCha20;
use rpassman::cipher::{
    decrypt_value, derive_entry_key, encrypt_value, encrypt_value_with_nonce, value_fits,
    EncryptedValue, VaultKey, KEYSTREAM_LIMIT, NONCE_LEN,
};
use rpassman::errors::DecryptError;
use sha2::{Digest, Sha256};

fn sample_key() -> [u8; 32] {
    let mut k = [0u8; 32];
    for (i, b) in k.iter_mut().enumerate() {
        *b = i as u8;
    }
    k
}

#[test]
fn derive_entry_key_digests_key_then_name() {
    let vk = VaultKey::new("vault-material".to_string());
    let got = derive_entry_key(&vk, "github");
    let want = Sha256::digest(b"vault-materialgithub");
    assert_eq!(&got[..], want.as_slice());
}

#[test]
fn derive_entry_key_differs_by_name() {
    let vk = VaultKey::new("vault-material".to_string());
    assert_ne!(derive_entry_key(&vk, "github"), derive_entry_key(&vk, "gitlab"));
    assert_eq!(derive_entry_key(&vk, "github"), derive_entry_key(&vk, "github"));
}

#[test]
fn encrypt_with_nonce_is_chacha20_in_hex() {
    let key = sample_key();
    let nonce = [7u8; 12];
    let v = encrypt_value_with_nonce(&key, &nonce, "p@ss");
    let mut buf = b"p@ss".to_vec();
    let mut c = ChaCha20::new(&key.into(), &nonce.into());
    c.apply_keystream(&mut buf);
    assert_eq!(v.ciphertext, hex::encode(&buf));
    assert_eq!(v.nonce, "070707070707070707070707");
    assert_ne!(v.ciphertext, "p@ss");
    assert_eq!(v.ciphertext.len(), 8);
}

#[test]
fn encrypt_then_decrypt_round_trips() {
    let key = sample_key();
    for text in ["", "p@ss", "héllo wörld ✓", "a much longer value that spans more than one sixty-four byte keystream block, surely"] {
        let v = encrypt_value(&key, text);
        assert_eq!(decrypt_value(&key, &v), Ok(text.to_string()));
    }
}

#[test]
fn repeated_encryptions_differ() {
    let key = sample_key();
    let a = encrypt_value(&key, "same");
    let b = encrypt_value(&key, "same");
    assert_ne!((a.ciphertext.clone(), a.nonce.clone()), (b.ciphertext.clone(), b.nonce.clone()));
    assert_eq!(a.nonce.len(), 2 * NONCE_LEN);
}

#[test]
fn decrypt_with_wrong_key_does_not_give_plaintext() {
    let key = sample_key();
    let other = [9u8; 32];
    let v = encrypt_value(&key, "secret value");
    assert_ne!(decrypt_value(&other, &v), Ok("secret value".to_string()));
}

#[test]
fn decrypt_rejects_bad_hex() {
    let key = sample_key();
    let odd = EncryptedValue { ciphertext: "abc".to_string(), nonce: "00".repeat(12) };
    assert_eq!(decrypt_value(&key, &odd), Err(DecryptError::Malformed));
    let bad_char = EncryptedValue { ciphertext: "zz".to_string(), nonce: "00".repeat(12) };
    assert_eq!(decrypt_value(&key, &bad_char), Err(DecryptError::Malformed));
    let bad_nonce = EncryptedValue { ciphertext: "00".to_string(), nonce: "0g".repeat(12) };
    assert_eq!(decrypt_value(&key, &bad_nonce), Err(DecryptError::Malformed));
}

#[test]
fn decrypt_rejects_nonce_of_wrong_length() {
    let key = sample_key();
    let v = encrypt_value(&key, "x");
    let short = EncryptedValue { ciphertext: v.ciphertext.clone(), nonce: "00".repeat(11) };
    assert_eq!(decrypt_value(&key, &short), Err(DecryptError::Malformed));
}

#[test]
fn decrypt_rejects_bytes_that_are_not_utf8() {
    let key = sample_key();
    let nonce = [1u8; 12];
    let mut buf = vec![0xffu8, 0xfe];
    let mut c = ChaCha20::new(&key.into(), &nonce.into());
    c.apply_keystream(&mut buf);
    let v = EncryptedValue { ciphertext: hex::encode(&buf), nonce: hex::encode(nonce) };
    assert_eq!(decrypt_value(&key, &v), Err(DecryptError::Malformed));
}

#[test]
fn decrypt_accepts_upper_case_hex() {
    let key = sample_key();
    let v = encrypt_value(&key, "Case");
    let upper = EncryptedValue { ciphertext: v.ciphertext.to_uppercase(), nonce: v.nonce.to_uppercase() };
    assert_eq!(decrypt_value(&key, &upper), Ok("Case".to_string()));
}

#[test]
fn keystream_limit_and_value_fits() {
    assert_eq!(KEYSTREAM_LIMIT, 64 * (u32::MAX as u64));
    assert!(value_fits(""));
    assert!(value_fits("p@ss"));
}
