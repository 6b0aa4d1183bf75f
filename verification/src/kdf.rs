//! Derivation of the master key from a passphrase and the vault's salt.

use vstd::prelude::*;
use crate::bytes::{copy_bytes, zeros};
use crate::error::VaultError;

verus! {

/// Length of the master key: 256 bits.
pub const KEY_LEN: usize = 32;

/// Length of the salt that every vault stores.
pub const SALT_LEN: usize = 16;

/// The longest passphrase that the derivation accepts.
pub const MAX_PASSPHRASE_LEN: usize = 0xFFFF_FFFF;

/// The error type of the `argon2` crate, carried through unread.
#[verifier::external_type_specification]
#[verifier::external_body]
pub struct ExArgon2Error(argon2::Error);

/// What Argon2id, version 0x13, with 19 MiB of memory, two passes and one
/// lane, computes from a password and a salt as a tag of `out_len` bytes.
pub uninterp spec fn argon2id_spec(passphrase: Seq<u8>, salt: Seq<u8>, out_len: nat) -> Seq<u8>;

/// Calls `argon2::Argon2::hash_password_into` on `argon2::Argon2::default()`.
///
/// Trusted: the call is a function of its arguments alone and fills all
/// `out_len` bytes; it refuses only a password over 2^32 - 1 bytes, a salt
/// outside 8 to 2^32 - 1 bytes, and an output outside 4 to 2^32 - 1 bytes.
#[verifier::external_body]
fn argon2id(passphrase: &[u8], salt: &[u8], out_len: usize) -> (r: Result<Vec<u8>, argon2::Error>)
    ensures
        r matches Ok(out) ==> out@ == argon2id_spec(passphrase@, salt@, out_len as nat)
            && out@.len() == out_len,
        passphrase.len() <= 0xFFFF_FFFF && 8 <= salt.len() <= 0xFFFF_FFFF && 4 <= out_len
            <= 0xFFFF_FFFF ==> r is Ok,
{
    let mut out = vec![0u8; out_len];
    argon2::Argon2::default().hash_password_into(passphrase, salt, &mut out)?;
    Ok(out)
}

/// Whether a passphrase can be used at all: it is not empty and not longer
/// than the derivation accepts.
pub open spec fn valid_passphrase(passphrase: Seq<u8>) -> bool {
    0 < passphrase.len() <= MAX_PASSPHRASE_LEN
}

/// The key that belongs to a passphrase and a salt.
pub open spec fn derive_spec(passphrase: Seq<u8>, salt: Seq<u8>) -> Seq<u8> {
    argon2id_spec(passphrase, salt, KEY_LEN as nat)
}

/// A key of all zero bytes: what a closed session holds.
pub open spec fn zero_key() -> Seq<u8> {
    Seq::new(KEY_LEN as nat, |i: int| 0u8)
}

/// The symmetric key of a session. It lives in memory only.
pub struct MasterKey {
    bytes: Vec<u8>,
}

impl View for MasterKey {
    type V = Seq<u8>;

    closed spec fn view(&self) -> Seq<u8> {
        self.bytes@
    }
}

impl MasterKey {
    /// A key has exactly `KEY_LEN` bytes.
    pub open spec fn wf(&self) -> bool {
        self@.len() == KEY_LEN
    }

    /// The all-zero key.
    pub fn zeroed() -> (key: MasterKey)
        ensures
            key.wf(),
            key@ == zero_key(),
    {
        MasterKey { bytes: zeros(KEY_LEN) }
    }

    /// Takes `KEY_LEN` bytes as a key; any other length is `Malformed`.
    pub fn from_bytes(bytes: &[u8]) -> (r: Result<MasterKey, VaultError>)
        ensures
            match r {
                Ok(key) => bytes@.len() == KEY_LEN && key@ == bytes@ && key.wf(),
                Err(e) => bytes@.len() != KEY_LEN && e == VaultError::Malformed,
            },
    {
        if bytes.len() != KEY_LEN {
            Err(VaultError::Malformed)
        } else {
            Ok(MasterKey { bytes: copy_bytes(bytes) })
        }
    }

    /// The key's bytes.
    pub fn as_bytes(&self) -> (bytes: &[u8])
        ensures
            bytes@ == self@,
    {
        self.bytes.as_slice()
    }

    /// Overwrites every byte of the key with zero.
    pub fn zeroize(&mut self)
        requires
            old(self).wf(),
        ensures
            final(self).wf(),
            final(self)@ == zero_key(),
    {
        let mut i: usize = 0;
        while i < KEY_LEN
            invariant
                i <= KEY_LEN,
                self.bytes@.len() == KEY_LEN,
                forall|j: int| 0 <= j < i ==> self.bytes@[j] == 0u8,
            decreases KEY_LEN - i,
        {
            self.bytes.set(i, 0u8);
            i += 1;
        }
        assert(self.bytes@ =~= zero_key());
    }
}

/// Derives the master key from a passphrase and a salt.
///
/// The same passphrase and salt always give the same key. An empty or
/// over-long passphrase is `InvalidPassphrase`; a salt of the wrong length
/// is `Malformed`.
pub fn derive(passphrase: &[u8], salt: &[u8]) -> (r: Result<MasterKey, VaultError>)
    ensures
        match r {
            Ok(key) => valid_passphrase(passphrase@) && salt@.len() == SALT_LEN && key.wf()
                && key@ == derive_spec(passphrase@, salt@),
            Err(e) => if !valid_passphrase(passphrase@) {
                e == VaultError::InvalidPassphrase
            } else {
                e == VaultError::Malformed && salt@.len() != SALT_LEN
            },
        },
{
    if passphrase.len() == 0 || passphrase.len() > MAX_PASSPHRASE_LEN {
        return Err(VaultError::InvalidPassphrase);
    }
    if salt.len() != SALT_LEN {
        return Err(VaultError::Malformed);
    }
    match argon2id(passphrase, salt, KEY_LEN) {
        Ok(bytes) => Ok(MasterKey { bytes }),
        Err(_) => Err(VaultError::InvalidPassphrase),
    }
}

} // verus!
