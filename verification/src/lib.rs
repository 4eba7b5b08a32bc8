//! An encrypted store for credential entries.
//!
//! A vault is a sequence of entries. On disk it is one record: a nonce
//! followed by the AES-256-GCM sealing of the encoded vault, under a key that
//! Argon2 stretches from the master password and a persisted salt.

pub mod codec;
pub mod commands;
pub mod crypto;
pub mod error;
pub mod text;
pub mod vault;
