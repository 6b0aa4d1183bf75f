//! Core of a local credential vault: key derivation from a master
//! passphrase, sealed envelopes for every stored field, an ordered record
//! store with identifiers that are never reused, and the session that ties
//! them together.

pub mod bytes;
pub mod error;
pub mod envelope;
pub mod kdf;
pub mod cipher;
pub mod vault;
pub mod store;
pub mod session;
pub mod lock;

pub use cipher::{open, seal, seal_with_nonce};
pub use envelope::Envelope;
pub use error::{DecryptError, VaultError};
pub use kdf::MasterKey;
pub use lock::{LockState, VaultLock};
pub use session::{Credential, ListEntry, VaultSession};
pub use store::VaultStore;
pub use vault::{CredentialRecord, Vault};
