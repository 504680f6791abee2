//! The master credential store: a master password is hashed once into a
//! record, and later checked against it; a correct password also yields the
//! vault key, hashed with a second, independent salt.
use argon2::password_hash::{PasswordHash, PasswordHasher, PasswordVerifier, SaltString};
use argon2::Argon2;
use rand::distributions::Alphanumeric;
use rand::Rng;
use vstd::prelude::*;
use vstd::string::StrSliceExecFns;
use vstd::utf8::encode_utf8;

use crate::cipher::{entry_key_spec, fits_keystream, open_spec, seal_spec, VaultKey, NONCE_LEN};
use crate::errors::{AuthError, ConfigurationError, DecryptError};

verus! {

/// The longest password, in bytes, that the hashing function takes.
pub const MAX_PASSWORD_BYTES: u64 = 0xFFFF_FFFF;

/// The length of the salts drawn for a new record.
pub const SALT_LEN: usize = 32;

/// The PHC string of Argon2id, with default parameters, over `password` and
/// the B64 salt `salt`.
pub uninterp spec fn argon2_phc(password: Seq<u8>, salt: Seq<char>) -> Seq<char>;

/// Whether `password` matches the Argon2 PHC string `phc`.
pub uninterp spec fn argon2_verifies(password: Seq<u8>, phc: Seq<char>) -> bool;

pub open spec fn is_ascii_alphanumeric(c: char) -> bool {
    ('a' <= c <= 'z') || ('A' <= c <= 'Z') || ('0' <= c <= '9')
}

/// A salt that the hashing function always accepts: 12 to 64 letters and
/// digits, a multiple of four of them, so that it decodes to at least 9
/// whole bytes.
pub open spec fn salt_supported(salt: Seq<char>) -> bool {
    &&& 12 <= salt.len() <= 64
    &&& salt.len() % 4 == 0
    &&& forall|i: int| 0 <= i < salt.len() ==> is_ascii_alphanumeric(#[trigger] salt[i])
}

/// Whether a password is short enough for the hashing function.
pub open spec fn password_fits(password: Seq<char>) -> bool {
    encode_utf8(password).len() <= MAX_PASSWORD_BYTES
}

/// Relies on SaltString::from_b64 and Argon2::hash_password, with default
/// parameters: the PHC string of the password hashed with the salt. A
/// supported salt and a password of at most 2^32 - 1 bytes are accepted.
#[verifier::external_body]
fn argon2_hash(password: &[u8], salt: &str) -> (r: Option<String>)
    ensures
        r matches Some(h) ==> h@ == argon2_phc(password@, salt@),
        salt_supported(salt@) && password@.len() <= MAX_PASSWORD_BYTES ==> r is Some,
{
    match SaltString::from_b64(salt) {
        Ok(s) => match Argon2::default().hash_password(password, &s) {
            Ok(h) => Some(h.to_string()),
            Err(_) => None,
        },
        Err(_) => None,
    }
}

/// Relies on PasswordHash::new and PasswordVerifier::verify_password of
/// Argon2: whether the password matches the PHC string (one that does not
/// parse matches nothing).
#[verifier::external_body]
fn argon2_verify(password: &[u8], phc: &str) -> (r: bool)
    ensures
        r == argon2_verifies(password@, phc@),
{
    match PasswordHash::new(phc) {
        Ok(h) => Argon2::default().verify_password(password, &h).is_ok(),
        Err(_) => false,
    }
}

/// Relies on rand's thread_rng and the Alphanumeric distribution: 32
/// characters drawn at random, each an ASCII letter or digit.
#[verifier::external_body]
fn random_salt() -> (r: String)
    ensures
        r@.len() == SALT_LEN,
        forall|i: int| 0 <= i < r@.len() ==> is_ascii_alphanumeric(#[trigger] r@[i]),
{
    rand::thread_rng().sample_iter(Alphanumeric).take(SALT_LEN).map(char::from).collect()
}

/// The persisted master record.
pub struct MasterRecord {
    pub password_hash: String,
    pub hash_salt: String,
    pub key_derivation_salt: String,
}

pub struct MasterRecordView {
    pub password_hash: Seq<char>,
    pub hash_salt: Seq<char>,
    pub key_derivation_salt: Seq<char>,
}

impl View for MasterRecord {
    type V = MasterRecordView;

    open spec fn view(&self) -> MasterRecordView {
        MasterRecordView {
            password_hash: self.password_hash@,
            hash_salt: self.hash_salt@,
            key_derivation_salt: self.key_derivation_salt@,
        }
    }
}

/// The record made for `password` with the two salts.
pub open spec fn master_record_spec(
    password: Seq<char>,
    hash_salt: Seq<char>,
    key_salt: Seq<char>,
) -> MasterRecordView {
    MasterRecordView {
        password_hash: argon2_phc(encode_utf8(password), hash_salt),
        hash_salt,
        key_derivation_salt: key_salt,
    }
}

/// What setting up a record may give, given the password and its
/// confirmation: each error exactly where its cause holds, and on success a
/// record of the password. Where the confirmation matches, only the hashing
/// function can refuse.
pub open spec fn initialized_as(
    password: Seq<char>,
    confirmation: Option<Seq<char>>,
    r: Result<MasterRecordView, ConfigurationError>,
) -> bool {
    match r {
        Ok(rec) => confirmation == Some(password) && rec == master_record_spec(
            password,
            rec.hash_salt,
            rec.key_derivation_salt,
        ),
        Err(ConfigurationError::MissingConfirmation) => confirmation is None,
        Err(ConfigurationError::Mismatch) => confirmation matches Some(c) && c != password,
        Err(ConfigurationError::HashingFailed) => confirmation == Some(password),
    }
}

pub open spec fn record_result_view(r: Result<MasterRecord, ConfigurationError>) -> Result<
    MasterRecordView,
    ConfigurationError,
> {
    match r {
        Ok(rec) => Ok(rec@),
        Err(e) => Err(e),
    }
}

pub open spec fn option_view(o: Option<&str>) -> Option<Seq<char>> {
    match o {
        Some(s) => Some(s@),
        None => None,
    }
}

/// Sets up a master record for `password` with the given salts.
pub fn initialize_with_salts(
    password: &str,
    confirmation: Option<&str>,
    hash_salt: String,
    key_salt: String,
) -> (r: Result<MasterRecord, ConfigurationError>)
    ensures
        initialized_as(password@, option_view(confirmation), record_result_view(r)),
        r matches Ok(rec) ==> rec@.hash_salt == hash_salt@ && rec@.key_derivation_salt == key_salt@,
        option_view(confirmation) == Some(password@) && salt_supported(hash_salt@) && password_fits(password@)
            ==> r is Ok,
{
    let confirmed = match confirmation {
        None => return Err(ConfigurationError::MissingConfirmation),
        Some(c) => c,
    };
    if password.to_owned() != confirmed.to_owned() {
        return Err(ConfigurationError::Mismatch);
    }
    let bytes = password.as_bytes_vec();
    match argon2_hash(bytes.as_slice(), hash_salt.as_str()) {
        Some(h) => Ok(MasterRecord { password_hash: h, hash_salt, key_derivation_salt: key_salt }),
        None => Err(ConfigurationError::HashingFailed),
    }
}

/// Sets up a master record for `password`, with two salts drawn at random.
pub fn initialize(password: &str, confirmation: Option<&str>) -> (r: Result<
    MasterRecord,
    ConfigurationError,
>)
    ensures
        initialized_as(password@, option_view(confirmation), record_result_view(r)),
        r matches Ok(rec) ==> salt_supported(rec@.hash_salt) && salt_supported(
            rec@.key_derivation_salt,
        ),
        option_view(confirmation) == Some(password@) && password_fits(password@) ==> r is Ok,
{
    let hash_salt = random_salt();
    let key_salt = random_salt();
    initialize_with_salts(password, confirmation, hash_salt, key_salt)
}

/// Whether `candidate` is the password that `record` was made for.
pub open spec fn password_accepted(candidate: Seq<char>, record: MasterRecordView) -> bool {
    argon2_verifies(encode_utf8(candidate), record.password_hash)
}

/// The vault key of a session opened with `candidate`.
pub open spec fn session_key_spec(candidate: Seq<char>, record: MasterRecordView) -> Seq<char> {
    argon2_phc(encode_utf8(candidate), record.key_derivation_salt)
}

/// What `verify` gives back when it succeeds.
pub open spec fn verified_as(candidate: Seq<char>, record: MasterRecordView, key: Seq<char>) -> bool {
    password_accepted(candidate, record) && key == session_key_spec(candidate, record)
}

/// Checks `candidate` against the record and, if it is the password,
/// derives the vault key with the record's second salt.
pub fn verify(candidate: &str, record: &MasterRecord) -> (r: Result<VaultKey, AuthError>)
    ensures
        r matches Ok(k) ==> verified_as(candidate@, record@, k@),
        r matches Err(e) ==> e == AuthError::InvalidPassword,
        !password_accepted(candidate@, record@) ==> r is Err,
        password_accepted(candidate@, record@) && salt_supported(record@.key_derivation_salt)
            && password_fits(candidate@) ==> r is Ok,
{
    let bytes = candidate.as_bytes_vec();
    if !argon2_verify(bytes.as_slice(), record.password_hash.as_str()) {
        return Err(AuthError::InvalidPassword);
    }
    match argon2_hash(bytes.as_slice(), record.key_derivation_salt.as_str()) {
        Some(material) => Ok(VaultKey::new(material)),
        None => Err(AuthError::InvalidPassword),
    }
}

/// The vault key is the same in every session opened with the same
/// password: a value sealed in one session opens in another.
pub proof fn lemma_session_key_reproducible(
    candidate: Seq<char>,
    record: MasterRecordView,
    first: Seq<char>,
    second: Seq<char>,
    name: Seq<char>,
    nonce: Seq<u8>,
    plaintext: Seq<char>,
)
    requires
        verified_as(candidate, record, first),
        verified_as(candidate, record, second),
        nonce.len() == NONCE_LEN,
        fits_keystream(plaintext),
    ensures
        first == second,
        open_spec(entry_key_spec(second, name), seal_spec(entry_key_spec(first, name), nonce, plaintext))
            == Ok::<Seq<char>, DecryptError>(plaintext),
{
    crate::cipher::lemma_seal_open_round_trip(entry_key_spec(first, name), nonce, plaintext);
}

} // verus!
