//! An encrypted, single-user password store: a versioned on-disk container,
//! scrypt key stretching, AES-256-CTR encryption with HMAC-SHA-256
//! integrity, migration of legacy containers, and an in-memory entry
//! collection keyed by name.

pub mod error;
pub mod secure;
pub mod bytes;
pub mod entry;
pub mod codec;
pub mod crypto;
pub mod kdf;
pub mod cipher;
pub mod container;
pub mod store;
pub mod cli;
pub mod tui;
