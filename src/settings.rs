//! The settings that hold the master record, and their one-time setup.
use vstd::prelude::*;

use crate::errors::ConfigurationError;
use crate::master::{
    initialize, initialized_as, option_view, password_fits, salt_supported, MasterRecord,
    MasterRecordView,
};

verus! {

/// A record with every part empty, as held before any is loaded.
pub open spec fn empty_record() -> MasterRecordView {
    MasterRecordView {
        password_hash: Seq::empty(),
        hash_salt: Seq::empty(),
        key_derivation_salt: Seq::empty(),
    }
}

pub trait Initialize: Sized {
    /// Where the settings are kept.
    spec fn path_view(&self) -> Seq<char>;

    /// The master record held.
    spec fn record_view(&self) -> MasterRecordView;

    fn new(path: String) -> (r: Self)
        ensures
            r.path_view() == path@,
            r.record_view() == empty_record(),
    ;

    /// Makes a new master record for `password`, with fresh salts, and holds
    /// it; on failure the held record stays as it was.
    fn create_settings(&mut self, password: &str, confirmation: Option<&str>) -> (r: Result<
        (),
        ConfigurationError,
    >)
        ensures
            final(self).path_view() == old(self).path_view(),
            initialized_as(
                password@,
                option_view(confirmation),
                match r {
                    Ok(_) => Ok(final(self).record_view()),
                    Err(e) => Err(e),
                },
            ),
            r is Ok ==> salt_supported(final(self).record_view().hash_salt) && salt_supported(
                final(self).record_view().key_derivation_salt,
            ),
            r is Err ==> final(self).record_view() == old(self).record_view(),
            option_view(confirmation) == Some(password@) && password_fits(password@) ==> r is Ok,
    ;

    /// Holds the record read back from the settings.
    fn load_settings(&mut self, password_hash: String, hash_salt: String, derived_key_salt: String)
        ensures
            final(self).path_view() == old(self).path_view(),
            final(self).record_view() == (MasterRecordView {
                password_hash: password_hash@,
                hash_salt: hash_salt@,
                key_derivation_salt: derived_key_salt@,
            }),
    ;

    fn get_password_hash(&self) -> (r: String)
        ensures
            r@ == self.record_view().password_hash,
    ;

    fn get_key_salt(&self) -> (r: String)
        ensures
            r@ == self.record_view().key_derivation_salt,
    ;
}

/// The settings file's path and the master record kept in it.
pub struct SettingsInitializer {
    path: String,
    password_hash: String,
    hash_salt: String,
    derived_key_salt: String,
}

impl Initialize for SettingsInitializer {
    closed spec fn path_view(&self) -> Seq<char> {
        self.path@
    }

    closed spec fn record_view(&self) -> MasterRecordView {
        MasterRecordView {
            password_hash: self.password_hash@,
            hash_salt: self.hash_salt@,
            key_derivation_salt: self.derived_key_salt@,
        }
    }

    fn new(path: String) -> (r: Self) {
        SettingsInitializer {
            path,
            password_hash: String::new(),
            hash_salt: String::new(),
            derived_key_salt: String::new(),
        }
    }

    fn create_settings(&mut self, password: &str, confirmation: Option<&str>) -> (r: Result<
        (),
        ConfigurationError,
    >) {
        match initialize(password, confirmation) {
            Ok(rec) => {
                self.password_hash = rec.password_hash;
                self.hash_salt = rec.hash_salt;
                self.derived_key_salt = rec.key_derivation_salt;
                Ok(())
            },
            Err(e) => Err(e),
        }
    }

    fn load_settings(&mut self, password_hash: String, hash_salt: String, derived_key_salt: String) {
        self.password_hash = password_hash;
        self.hash_salt = hash_salt;
        self.derived_key_salt = derived_key_salt;
    }

    fn get_password_hash(&self) -> (r: String) {
        self.password_hash.clone()
    }

    fn get_key_salt(&self) -> (r: String) {
        self.derived_key_salt.clone()
    }
}

impl SettingsInitializer {
    pub fn get_path(&self) -> (r: String)
        ensures
            r@ == self.path_view(),
    {
        self.path.clone()
    }

    pub fn get_hash_salt(&self) -> (r: String)
        ensures
            r@ == self.record_view().hash_salt,
    {
        self.hash_salt.clone()
    }

    /// A copy of the master record held, to be persisted or checked against.
    pub fn record(&self) -> (r: MasterRecord)
        ensures
            r@ == self.record_view(),
    {
        MasterRecord {
            password_hash: self.password_hash.clone(),
            hash_salt: self.hash_salt.clone(),
            key_derivation_salt: self.derived_key_salt.clone(),
        }
    }
}

} // verus!
