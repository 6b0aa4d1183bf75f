//! The store: the one place where a vault is kept. It is empty until a
//! vault is initialized in it, and refuses to initialize a second one.

use vstd::prelude::*;
use crate::envelope::Envelope;
use crate::error::VaultError;
use crate::kdf::SALT_LEN;
use crate::vault::{
    holds_id, index_of, record_views, CredentialRecord, Vault, VaultView, MAX_ID,
};

verus! {

/// Owner of the durable vault. Holds no vault, or one.
#[derive(Debug)]
pub struct VaultStore {
    slot: Option<Vault>,
}

impl View for VaultStore {
    type V = Option<VaultView>;

    closed spec fn view(&self) -> Option<VaultView> {
        match self.slot {
            Some(vault) => Some(vault@),
            None => None,
        }
    }
}

impl VaultStore {
    /// A vault that is present is well formed.
    pub open spec fn wf(&self) -> bool {
        self@ matches Some(vault) ==> vault.wf()
    }

    /// A store with nothing in it.
    pub fn empty() -> (store: VaultStore)
        ensures
            store@ is None,
            store.wf(),
    {
        VaultStore { slot: None }
    }

    /// A store around a vault that was loaded from disk.
    pub fn holding(vault: Vault) -> (store: VaultStore)
        requires
            vault.wf(),
        ensures
            store@ == Some(vault@),
            store.wf(),
    {
        VaultStore { slot: Some(vault) }
    }

    /// Whether a vault is present.
    pub fn is_initialized(&self) -> (present: bool)
        ensures
            present == (self@ is Some),
    {
        self.slot.is_some()
    }

    /// Creates a new, empty vault in the store. Where one is present
    /// already it is left untouched and the result is `AlreadyExists`; a
    /// salt of the wrong length is `Malformed`.
    pub fn initialize(&mut self, salt: Vec<u8>, verification: Envelope) -> (r: Result<
        (),
        VaultError,
    >)
        requires
            old(self).wf(),
        ensures
            final(self).wf(),
            match r {
                Ok(_) => old(self)@ is None && salt@.len() == SALT_LEN && final(self)@ == Some(
                    VaultView::fresh(salt@, verification@),
                ),
                Err(e) => final(self)@ == old(self)@ && if old(self)@ is Some {
                    e == VaultError::AlreadyExists
                } else {
                    e == VaultError::Malformed && salt@.len() != SALT_LEN
                },
            },
    {
        if self.slot.is_some() {
            return Err(VaultError::AlreadyExists);
        }
        match Vault::new(salt, verification) {
            Ok(vault) => {
                self.slot = Some(vault);
                Ok(())
            },
            Err(e) => Err(e),
        }
    }

    /// The vault in the store, or `NotInitialized` where there is none.
    pub fn load(&self) -> (r: Result<&Vault, VaultError>)
        ensures
            match r {
                Ok(vault) => self@ == Some(vault@),
                Err(e) => self@ is None && e == VaultError::NotInitialized,
            },
    {
        match &self.slot {
            Some(vault) => Ok(vault),
            None => Err(VaultError::NotInitialized),
        }
    }

    /// Appends a record and returns its identifier.
    pub fn append(&mut self, username: Envelope, secret: Envelope, site_or_note: Envelope) -> (r:
        Result<u64, VaultError>)
        requires
            old(self).wf(),
        ensures
            final(self).wf(),
            match r {
                Ok(id) => old(self)@ matches Some(vault) && vault.next_id < MAX_ID && id
                    == vault.next_id && final(self)@ == Some(
                    vault.appended(username@, secret@, site_or_note@),
                ),
                Err(e) => final(self)@ == old(self)@ && match old(self)@ {
                    None => e == VaultError::NotInitialized,
                    Some(vault) => e == VaultError::IdentifiersExhausted && vault.next_id
                        == MAX_ID,
                },
            },
    {
        match self.slot.take() {
            None => Err(VaultError::NotInitialized),
            Some(vault) => {
                let mut vault = vault;
                let r = vault.append(username, secret, site_or_note);
                self.slot = Some(vault);
                r
            },
        }
    }

    /// The records in insertion order.
    pub fn list(&self) -> (r: Result<&[CredentialRecord], VaultError>)
        ensures
            match r {
                Ok(records) => self@ matches Some(vault) && record_views(records@)
                    == vault.records,
                Err(e) => self@ is None && e == VaultError::NotInitialized,
            },
    {
        match &self.slot {
            Some(vault) => Ok(vault.records()),
            None => Err(VaultError::NotInitialized),
        }
    }

    /// Deletes the record that carries `id`. `Ok(false)` says that no
    /// record carried it and nothing changed.
    pub fn delete(&mut self, id: u64) -> (r: Result<bool, VaultError>)
        requires
            old(self).wf(),
        ensures
            final(self).wf(),
            match r {
                Ok(removed) => old(self)@ matches Some(vault) && removed == holds_id(
                    vault.records,
                    id,
                ) && final(self)@ == Some(vault.deleted(id)),
                Err(e) => old(self)@ is None && final(self)@ is None && e
                    == VaultError::NotInitialized,
            },
    {
        match self.slot.take() {
            None => Err(VaultError::NotInitialized),
            Some(vault) => {
                let mut vault = vault;
                let removed = vault.delete(id);
                self.slot = Some(vault);
                Ok(removed)
            },
        }
    }

    /// Looks a record up by its identifier.
    pub fn find_by_id(&self, id: u64) -> (r: Result<Option<&CredentialRecord>, VaultError>)
        requires
            self.wf(),
        ensures
            match r {
                Ok(Some(record)) => self@ matches Some(vault) && holds_id(vault.records, id)
                    && record@ == vault.records[index_of(vault.records, id)],
                Ok(None) => self@ matches Some(vault) && !holds_id(vault.records, id),
                Err(e) => self@ is None && e == VaultError::NotInitialized,
            },
    {
        match &self.slot {
            Some(vault) => Ok(vault.find_by_id(id)),
            None => Err(VaultError::NotInitialized),
        }
    }
}

} // verus!
