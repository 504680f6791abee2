//! The session's hold on the vault key, given once the master password has
//! been checked.
use vstd::prelude::*;

use crate::cipher::VaultKey;
use crate::errors::AuthError;
use crate::master::{
    password_accepted, password_fits, salt_supported, verified_as, verify, MasterRecord,
};

verus! {

pub trait ProcessPassword: Sized {
    /// The vault key held, if the password has been checked.
    spec fn key_view(&self) -> Option<Seq<char>>;

    fn new() -> (r: Self)
        ensures
            r.key_view() is None,
    ;

    /// Checks `candidate` against the record; if it is the password, holds
    /// the vault key derived from it, and otherwise keeps what was held.
    fn verify_password(&mut self, candidate: &str, record: &MasterRecord) -> (r: Result<
        (),
        AuthError,
    >)
        ensures
            r is Ok ==> (final(self).key_view() matches Some(k) && verified_as(candidate@, record@, k)),
            r matches Err(e) ==> e == AuthError::InvalidPassword && final(self).key_view()
                == old(self).key_view(),
            !password_accepted(candidate@, record@) ==> r is Err,
            password_accepted(candidate@, record@) && salt_supported(record@.key_derivation_salt)
                && password_fits(candidate@) ==> r is Ok,
    ;

    fn get_decrypt_key(&self) -> (r: Option<&VaultKey>)
        ensures
            match r {
                Some(k) => self.key_view() == Some(k@),
                None => self.key_view() is None,
            },
    ;
}

/// Holds the vault key for the rest of the session.
pub struct PasswordHandler {
    decrypt_key: Option<VaultKey>,
}

impl ProcessPassword for PasswordHandler {
    closed spec fn key_view(&self) -> Option<Seq<char>> {
        match self.decrypt_key {
            Some(k) => Some(k@),
            None => None,
        }
    }

    fn new() -> (r: Self) {
        PasswordHandler { decrypt_key: None }
    }

    fn verify_password(&mut self, candidate: &str, record: &MasterRecord) -> (r: Result<
        (),
        AuthError,
    >) {
        match verify(candidate, record) {
            Ok(k) => {
                self.decrypt_key = Some(k);
                Ok(())
            },
            Err(e) => Err(e),
        }
    }

    fn get_decrypt_key(&self) -> (r: Option<&VaultKey>) {
        match &self.decrypt_key {
            Some(k) => Some(k),
            None => None,
        }
    }
}

} // verus!
