//! Error values returned by the vault core.

use vstd::prelude::*;

verus! {

/// Why an envelope could not be opened.
///
/// A wrong key and damaged bytes are reported alike, so that the value
/// gives no hint which of the two happened.
#[derive(Clone, Copy, Debug, PartialEq, Eq, Structural)]
pub enum DecryptError {
    /// The envelope is too short to hold a nonce and a tag, or its tag does
    /// not authenticate its contents under the key.
    IntegrityFailure,
}

/// Every way an operation of the vault can fail.
#[derive(Clone, Copy, Debug, PartialEq, Eq, Structural)]
pub enum VaultError {
    /// The passphrase does not open the vault's verification tag.
    AuthenticationFailed,
    /// Another holder has the vault's lock.
    VaultBusy,
    /// A vault is already present where a new one was to be created.
    AlreadyExists,
    /// The operation needs an unlocked session.
    SessionNotOpen,
    /// An envelope failed to authenticate.
    IntegrityFailure,
    /// No vault is present where one was to be loaded.
    NotInitialized,
    /// The session is already unlocked.
    AlreadyOpen,
    /// The passphrase is empty or longer than the derivation accepts.
    InvalidPassphrase,
    /// A field is longer than an envelope can carry.
    FieldTooLong,
    /// The system's random source gave no bytes.
    RandomSourceFailed,
    /// Every identifier of the vault has been handed out.
    IdentifiersExhausted,
    /// Parts handed in as a vault do not form one.
    Malformed,
    /// A nonce offered for sealing is already carried by a stored envelope,
    /// or was offered twice.
    NonceReused,
}

impl VaultError {
    /// The vault error that stands for a failure to open an envelope.
    pub fn from_decrypt(error: DecryptError) -> (e: VaultError)
        ensures
            e == VaultError::IntegrityFailure,
    {
        match error {
            DecryptError::IntegrityFailure => VaultError::IntegrityFailure,
        }
    }
}

} // verus!
