use argon2::password_hash::{PasswordHasher, SaltString};
use argon2::Argon2;
use rpassman::cipher::{decrypt_value, derive_entry_key, encrypt_value};
use rpassman::errors::{AuthError, ConfigurationError};
use rpassman::master::{initialize, initialize_with_salts, verify, MasterRecord, SALT_LEN};
use rpassman::session::{PasswordHandler, ProcessPassword};
use rpassman::settings::{Initialize, SettingsInitializer};

const HASH_SALT: &str = "abcdefghijklmnopqrstuvwxyz012345";
const KEY_SALT: &str = "ABCDEFGHIJKLMNOPQRSTUVWXYZ678901";

fn argon2_phc(password: &str, salt: &str) -> String {
    let s = SaltString::from_b64(salt).unwrap();
    Argon2::default().hash_password(password.as_bytes(), &s).unwrap().to_string()
}

#[test]
fn initialize_requires_confirmation() {
    assert_eq!(initialize("pw", None).err(), Some(ConfigurationError::MissingConfirmation));
}

#[test]
fn initialize_rejects_mismatched_confirmation() {
    assert_eq!(initialize("pw", Some("pv")).err(), Some(ConfigurationError::Mismatch));
}

#[test]
fn initialize_with_salts_hashes_with_argon2() {
    let rec = initialize_with_salts("hunter42", Some("hunter42"), HASH_SALT.to_string(), KEY_SALT.to_string()).ok().unwrap();
    assert_eq!(rec.password_hash, argon2_phc("hunter42", HASH_SALT));
    assert_eq!(rec.hash_salt, HASH_SALT);
    assert_eq!(rec.key_derivation_salt, KEY_SALT);
}

#[test]
fn initialize_with_salts_reports_refused_salt() {
    let r = initialize_with_salts("pw", Some("pw"), "!!".to_string(), KEY_SALT.to_string());
    assert_eq!(r.err(), Some(ConfigurationError::HashingFailed));
}

#[test]
fn initialize_draws_two_salts() {
    let rec = initialize("pw", Some("pw")).ok().unwrap();
    assert_eq!(rec.hash_salt.len(), SALT_LEN);
    assert_eq!(rec.key_derivation_salt.len(), SALT_LEN);
    assert!(rec.hash_salt.chars().all(|c| c.is_ascii_alphanumeric()));
    assert_ne!(rec.hash_salt, rec.key_derivation_salt);
    assert!(rec.password_hash.starts_with("$argon2id$"));
}

#[test]
fn verify_with_wrong_password_fails() {
    let rec = MasterRecord {
        password_hash: argon2_phc("right", HASH_SALT),
        hash_salt: HASH_SALT.to_string(),
        key_derivation_salt: KEY_SALT.to_string(),
    };
    assert_eq!(verify("wrong", &rec).err(), Some(AuthError::InvalidPassword));
}

#[test]
fn verify_with_unparsable_hash_fails() {
    let rec = MasterRecord {
        password_hash: "not a phc string".to_string(),
        hash_salt: HASH_SALT.to_string(),
        key_derivation_salt: KEY_SALT.to_string(),
    };
    assert_eq!(verify("right", &rec).err(), Some(AuthError::InvalidPassword));
}

#[test]
fn verify_keys_agree_across_sessions() {
    let rec = MasterRecord {
        password_hash: argon2_phc("right", HASH_SALT),
        hash_salt: HASH_SALT.to_string(),
        key_derivation_salt: KEY_SALT.to_string(),
    };
    let first = verify("right", &rec).ok().unwrap();
    let k1 = derive_entry_key(&first, "github");
    let sealed = encrypt_value(&k1, "p@ss");
    let second = verify("right", &rec).ok().unwrap();
    let k2 = derive_entry_key(&second, "github");
    assert_eq!(k1, k2);
    assert_eq!(decrypt_value(&k2, &sealed), Ok("p@ss".to_string()));
    let expected = rpassman::cipher::VaultKey::new(argon2_phc("right", KEY_SALT));
    assert_eq!(derive_entry_key(&expected, "github"), k1);
}

#[test]
fn settings_start_empty_and_load() {
    let mut s = SettingsInitializer::new("settings.json".to_string());
    assert_eq!(s.get_password_hash(), "");
    assert_eq!(s.get_key_salt(), "");
    assert_eq!(s.get_path(), "settings.json");
    s.load_settings("h".to_string(), "s1".to_string(), "s2".to_string());
    assert_eq!(s.get_password_hash(), "h");
    assert_eq!(s.get_hash_salt(), "s1");
    assert_eq!(s.get_key_salt(), "s2");
    assert_eq!(s.record().key_derivation_salt, "s2");
}

#[test]
fn settings_keep_record_when_setup_fails() {
    let mut s = SettingsInitializer::new("settings.json".to_string());
    s.load_settings("h".to_string(), "s1".to_string(), "s2".to_string());
    assert_eq!(s.create_settings("a", Some("b")).err(), Some(ConfigurationError::Mismatch));
    assert_eq!(s.get_password_hash(), "h");
}

#[test]
fn settings_then_session_accept_the_password() {
    let mut s = SettingsInitializer::new("settings.json".to_string());
    assert!(s.create_settings("open sesame", Some("open sesame")).is_ok());
    let mut handler = PasswordHandler::new();
    assert!(handler.get_decrypt_key().is_none());
    assert_eq!(handler.verify_password("closed", &s.record()).err(), Some(AuthError::InvalidPassword));
    assert!(handler.get_decrypt_key().is_none());
    assert!(handler.verify_password("open sesame", &s.record()).is_ok());
    assert!(handler.get_decrypt_key().is_some());
}
