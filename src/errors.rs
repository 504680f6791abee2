//! Error types of the vault.
use vstd::prelude::*;

verus! {

/// A general error carrying a message for the operator.
pub struct AppError {
    details: String,
}

impl AppError {
    /// The message this error carries.
    pub closed spec fn message(&self) -> Seq<char> {
        self.details@
    }

    pub fn new(msg: &str) -> (r: AppError)
        ensures
            r.message() == msg@,
    {
        AppError { details: msg.to_owned() }
    }

    /// The message, as the operator is shown it.
    pub fn details(&self) -> (r: String)
        ensures
            r@ == self.message(),
    {
        self.details.clone()
    }
}

/// Setting up the master record failed.
#[derive(Clone, Copy, Debug, PartialEq, Eq, Structural)]
pub enum ConfigurationError {
    /// No confirmation of the password was given.
    MissingConfirmation,
    /// The confirmation differs from the password.
    Mismatch,
    /// The password hashing function refused the password or a salt.
    HashingFailed,
}

/// Checking the master password failed.
#[derive(Clone, Copy, Debug, PartialEq, Eq, Structural)]
pub enum AuthError {
    InvalidPassword,
}

/// The backing document could not be read or understood.
#[derive(Clone, Copy, Debug, PartialEq, Eq, Structural)]
pub enum StorageError {
    Unreadable,
    Malformed,
}

/// A stored value could not be decrypted into text.
#[derive(Clone, Copy, Debug, PartialEq, Eq, Structural)]
pub enum DecryptError {
    Malformed,
}

/// An entry operation was refused.
#[derive(Clone, Copy, Debug, PartialEq, Eq, Structural)]
pub enum EntryError {
    /// An entry of that name already exists.
    DuplicateName,
    /// A field holds the wrong number of values for its kind.
    WrongArity,
    /// No entry has that name, or it has no field at that index.
    NotFound,
}

} // verus!
