//! A local, single-user secrets vault: a master password guards a vault key,
//! from which each entry derives its own key for encrypting field values.

pub mod cipher;
pub mod encoding;
pub mod entry;
pub mod errors;
pub mod master;
pub mod repository;
pub mod session;
pub mod settings;
