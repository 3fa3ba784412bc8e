use vstd::prelude::*;

verus! {

/// Every failure the store reports. The set is closed: callers match on it
/// exhaustively.
#[derive(Debug, Clone, Copy, PartialEq, Eq, Structural)]
pub enum PasswordError {
    /// The container is structurally invalid, or its integrity check failed
    /// after the version was read.
    CorruptionError,
    /// Decryption kept failing until the retry budget ran out.
    CorruptionLikelyError,
    /// The container was written by a newer engine.
    OutdatedRoosterBinaryError,
    /// The container has the legacy layout and migration was not allowed.
    NeedUpgradeErrorFromV1,
    /// The user declined migration.
    NoUpgradeError,
    /// The master password does not open the container.
    WrongMasterPasswordError,
    /// Key-stretching parameters that scrypt refuses, or below the safety
    /// floor without `force`.
    InvalidScryptParams,
    /// An entry with that name already exists.
    DuplicateEntry,
    /// No entry has that name.
    NotFound,
    /// Reading, writing or gathering randomness failed.
    Io,
}

} // verus!
