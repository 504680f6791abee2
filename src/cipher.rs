//! The field cipher: per-entry keys derived from the vault key and the
//! entry's name, and ChaCha20 encryption of single field values, each under
//! its own random nonce.
use chacha20::cipher::{KeyIvInit, StreamCipher};
use chacha20::ChaCha20;
use rand::Rng;
use sha2::{Digest, Sha256};
use vstd::prelude::*;
use vstd::string::StrSliceExecFns;
use vstd::utf8::{
    decode_utf8, encode_utf8, encode_utf8_decode_utf8, encode_utf8_valid_utf8, valid_utf8,
};

use crate::encoding::{
    hex_decode, hex_decode_spec, hex_encode, hex_encode_spec, lemma_hex_injective,
    lemma_hex_round_trip, string_from_utf8,
};
use crate::errors::DecryptError;

verus! {

/// How many bytes a fresh ChaCha20 keystream covers: 2^32 - 1 blocks of 64.
pub const KEYSTREAM_LIMIT: u64 = 274877906880;

/// The length in bytes of a nonce.
pub const NONCE_LEN: usize = 12;

/// The SHA-256 digest of `data`.
pub uninterp spec fn sha256_digest(data: Seq<u8>) -> Seq<u8>;

/// The first `len` bytes of the ChaCha20 keystream for `key` and `nonce`,
/// counting blocks from zero.
pub uninterp spec fn chacha20_keystream(key: Seq<u8>, nonce: Seq<u8>, len: nat) -> Seq<u8>;

/// `a` with each byte XORed with the byte of `b` at the same place.
pub open spec fn xor_bytes(a: Seq<u8>, b: Seq<u8>) -> Seq<u8> {
    Seq::new(a.len(), |i: int| a[i] ^ b[i])
}

/// Relies on sha2's Sha256::digest: the SHA-256 digest of the bytes.
#[verifier::external_body]
fn sha256(data: &[u8]) -> (r: [u8; 32])
    ensures
        r@ == sha256_digest(data@),
{
    Sha256::digest(data).into()
}

/// Relies on chacha20's ChaCha20::new and StreamCipher::apply_keystream: a
/// fresh cipher XORs each byte with its keystream from the start, and panics
/// where the data runs past the keystream's end.
#[verifier::external_body]
fn chacha20_apply(key: &[u8; 32], nonce: &[u8; 12], data: Vec<u8>) -> (r: Vec<u8>)
    requires
        data@.len() <= KEYSTREAM_LIMIT,
    ensures
        r@ == xor_bytes(data@, chacha20_keystream(key@, nonce@, data@.len())),
{
    let mut buf = data;
    let mut cipher = ChaCha20::new(&(*key).into(), &(*nonce).into());
    cipher.apply_keystream(&mut buf);
    buf
}

/// Relies on rand's thread_rng and Rng::fill: twelve bytes drawn at random,
/// of which nothing is promised.
#[verifier::external_body]
fn random_nonce() -> (r: [u8; 12]) {
    let mut nonce = [0u8; 12];
    rand::thread_rng().fill(&mut nonce);
    nonce
}

/// The symmetric secret from which every entry key is derived.
pub struct VaultKey {
    material: String,
}

impl View for VaultKey {
    type V = Seq<char>;

    closed spec fn view(&self) -> Seq<char> {
        self.material@
    }
}

impl VaultKey {
    /// A vault key made of the given key material.
    pub fn new(material: String) -> (r: VaultKey)
        ensures
            r@ == material@,
    {
        VaultKey { material }
    }
}

/// One field value at rest: its ciphertext and its nonce, both as hex.
pub struct EncryptedValue {
    pub ciphertext: String,
    pub nonce: String,
}

/// What an `EncryptedValue` holds.
pub struct SealedValue {
    pub ciphertext: Seq<char>,
    pub nonce: Seq<char>,
}

impl View for EncryptedValue {
    type V = SealedValue;

    open spec fn view(&self) -> SealedValue {
        SealedValue { ciphertext: self.ciphertext@, nonce: self.nonce@ }
    }
}

impl EncryptedValue {
    pub fn clone_value(&self) -> (r: EncryptedValue)
        ensures
            r@ == self@,
    {
        EncryptedValue { ciphertext: self.ciphertext.clone(), nonce: self.nonce.clone() }
    }
}

/// The bytes digested into an entry key: the vault key's, then the name's.
pub open spec fn entry_key_input(vault_key: Seq<char>, name: Seq<char>) -> Seq<u8> {
    encode_utf8(vault_key) + encode_utf8(name)
}

/// The key of the entry called `name`.
pub open spec fn entry_key_spec(vault_key: Seq<char>, name: Seq<char>) -> Seq<u8> {
    sha256_digest(entry_key_input(vault_key, name))
}

/// `plaintext` encrypted under `key` and `nonce`.
pub open spec fn seal_spec(key: Seq<u8>, nonce: Seq<u8>, plaintext: Seq<char>) -> SealedValue {
    let p = encode_utf8(plaintext);
    SealedValue {
        ciphertext: hex_encode_spec(xor_bytes(p, chacha20_keystream(key, nonce, p.len()))),
        nonce: hex_encode_spec(nonce),
    }
}

/// The text that `v` holds under `key`, or why there is none: its hex is
/// broken, its nonce is not twelve bytes, it is longer than a keystream, or
/// the recovered bytes are not UTF-8.
pub open spec fn open_spec(key: Seq<u8>, v: SealedValue) -> Result<Seq<char>, DecryptError> {
    match (hex_decode_spec(v.ciphertext), hex_decode_spec(v.nonce)) {
        (Some(c), Some(n)) => {
            if n.len() == NONCE_LEN && c.len() <= KEYSTREAM_LIMIT {
                let p = xor_bytes(c, chacha20_keystream(key, n, c.len()));
                if valid_utf8(p) {
                    Ok(decode_utf8(p))
                } else {
                    Err(DecryptError::Malformed)
                }
            } else {
                Err(DecryptError::Malformed)
            }
        },
        _ => Err(DecryptError::Malformed),
    }
}

/// Whether `plaintext` is short enough for one keystream.
pub open spec fn fits_keystream(plaintext: Seq<char>) -> bool {
    encode_utf8(plaintext).len() <= KEYSTREAM_LIMIT
}

/// Whether `plaintext` is short enough to be encrypted.
pub fn value_fits(plaintext: &str) -> (r: bool)
    ensures
        r == fits_keystream(plaintext@),
{
    plaintext.as_bytes().len() as u64 <= KEYSTREAM_LIMIT
}

/// Derives the key of the entry called `name` from the vault key.
pub fn derive_entry_key(vault_key: &VaultKey, name: &str) -> (r: [u8; 32])
    ensures
        r@ == entry_key_spec(vault_key@, name@),
{
    let mut input = vault_key.material.as_str().as_bytes_vec();
    let mut name_bytes = name.as_bytes_vec();
    input.append(&mut name_bytes);
    sha256(input.as_slice())
}

/// Encrypts `plaintext` under `key` with the given nonce.
pub fn encrypt_value_with_nonce(key: &[u8; 32], nonce: &[u8; 12], plaintext: &str) -> (r:
    EncryptedValue)
    requires
        fits_keystream(plaintext@),
    ensures
        r@ == seal_spec(key@, nonce@, plaintext@),
{
    let bytes = plaintext.as_bytes_vec();
    let sealed = chacha20_apply(key, nonce, bytes);
    EncryptedValue { ciphertext: hex_encode(sealed.as_slice()), nonce: hex_encode(nonce.as_slice()) }
}

/// Encrypts `plaintext` under `key` with a fresh random nonce.
pub fn encrypt_value(key: &[u8; 32], plaintext: &str) -> (r: EncryptedValue)
    requires
        fits_keystream(plaintext@),
    ensures
        exists|n: Seq<u8>| n.len() == NONCE_LEN && r@ == #[trigger] seal_spec(key@, n, plaintext@),
        open_spec(key@, r@) == Ok::<Seq<char>, DecryptError>(plaintext@),
{
    let nonce = random_nonce();
    let r = encrypt_value_with_nonce(key, &nonce, plaintext);
    proof {
        lemma_seal_open_round_trip(key@, nonce@, plaintext@);
    }
    r
}

/// Decrypts `v` under `key`.
pub fn decrypt_value(key: &[u8; 32], v: &EncryptedValue) -> (r: Result<String, DecryptError>)
    ensures
        match r {
            Ok(s) => open_spec(key@, v@) == Ok::<Seq<char>, DecryptError>(s@),
            Err(e) => open_spec(key@, v@) == Err::<Seq<char>, DecryptError>(e),
        },
{
    let sealed = match hex_decode(v.ciphertext.as_str()) {
        Ok(b) => b,
        Err(_) => return Err(DecryptError::Malformed),
    };
    let nonce_bytes = match hex_decode(v.nonce.as_str()) {
        Ok(b) => b,
        Err(_) => return Err(DecryptError::Malformed),
    };
    if nonce_bytes.len() != NONCE_LEN || sealed.len() as u64 > KEYSTREAM_LIMIT {
        return Err(DecryptError::Malformed);
    }
    let nonce: [u8; 12] = [
        nonce_bytes[0], nonce_bytes[1], nonce_bytes[2], nonce_bytes[3],
        nonce_bytes[4], nonce_bytes[5], nonce_bytes[6], nonce_bytes[7],
        nonce_bytes[8], nonce_bytes[9], nonce_bytes[10], nonce_bytes[11],
    ];
    assert(nonce@ =~= nonce_bytes@);
    let plain = chacha20_apply(key, &nonce, sealed);
    match string_from_utf8(plain) {
        Ok(s) => Ok(s),
        Err(_) => Err(DecryptError::Malformed),
    }
}

proof fn lemma_xor_twice(a: u8, b: u8)
    ensures
        (a ^ b) ^ b == a,
{
    assert((a ^ b) ^ b == a) by (bit_vector);
}

/// Opening a value sealed under some key and nonce, with the same key,
/// gives back the plaintext.
pub proof fn lemma_seal_open_round_trip(key: Seq<u8>, nonce: Seq<u8>, plaintext: Seq<char>)
    requires
        nonce.len() == NONCE_LEN,
        fits_keystream(plaintext),
    ensures
        open_spec(key, seal_spec(key, nonce, plaintext)) == Ok::<Seq<char>, DecryptError>(plaintext),
{
    let p = encode_utf8(plaintext);
    let ks = chacha20_keystream(key, nonce, p.len());
    let c = xor_bytes(p, ks);
    lemma_hex_round_trip(c);
    lemma_hex_round_trip(nonce);
    assert forall|i: int| 0 <= i < p.len() implies #[trigger] xor_bytes(c, ks)[i] == p[i] by {
        lemma_xor_twice(p[i], ks[i]);
    }
    assert(xor_bytes(c, ks) =~= p);
    encode_utf8_valid_utf8(plaintext);
    encode_utf8_decode_utf8(plaintext);
}

/// Two values sealed under different nonces differ, whatever the key and
/// plaintext: a value's nonce is stored with it.
pub proof fn lemma_distinct_nonces_distinct_values(
    key: Seq<u8>,
    n1: Seq<u8>,
    n2: Seq<u8>,
    plaintext: Seq<char>,
)
    requires
        n1 != n2,
    ensures
        seal_spec(key, n1, plaintext) != seal_spec(key, n2, plaintext),
{
    if seal_spec(key, n1, plaintext) == seal_spec(key, n2, plaintext) {
        lemma_hex_injective(n1, n2);
    }
}

/// For a fixed vault key, different entry names give different digest
/// inputs: the name's bytes are never lost in the concatenation.
pub proof fn lemma_entry_key_inputs_distinct(vault_key: Seq<char>, n1: Seq<char>, n2: Seq<char>)
    requires
        n1 != n2,
    ensures
        entry_key_input(vault_key, n1) != entry_key_input(vault_key, n2),
{
    let k = encode_utf8(vault_key);
    let a = entry_key_input(vault_key, n1);
    let b = entry_key_input(vault_key, n2);
    if a == b {
        assert(a.subrange(k.len() as int, a.len() as int) =~= encode_utf8(n1));
        assert(b.subrange(k.len() as int, b.len() as int) =~= encode_utf8(n2));
        encode_utf8_decode_utf8(n1);
        encode_utf8_decode_utf8(n2);
    }
}

} // verus!
