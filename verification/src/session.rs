//! The session: the state machine that unlocks a vault with a passphrase
//! and works on plaintext credentials while it is unlocked.

use vstd::prelude::*;
use crate::bytes::bytes_eq;
use crate::cipher::{
    fresh_bytes, fresh_nonce, lemma_sealed_starts_with_nonce, open, opened, seal_with_nonce,
    sealed_with, xchacha20poly1305_seal_spec, MAX_PLAINTEXT_LEN,
};
use crate::envelope::{is_framed, lemma_frame_round_trip, nonce_of, NONCE_LEN};
use crate::error::{DecryptError, VaultError};
use crate::kdf::{
    derive_spec, valid_passphrase, zero_key, MasterKey, KEY_LEN, MAX_PASSPHRASE_LEN, SALT_LEN,
};
use crate::store::VaultStore;
use crate::vault::{
    holds_id, index_of, lemma_append_keeps_nonces_distinct, lemma_delete_keeps_nonces_distinct,
    lemma_deleted_wf, record_views, CredentialRecord, RecordView, VaultView, MAX_ID,
};

verus! {

/// The constant that is sealed under the master key when a vault is
/// created. A passphrase is right when its key opens the tag to this.
pub open spec fn verification_plaintext() -> Seq<u8> {
    seq![
        0x76u8, 0x61u8, 0x75u8, 0x6cu8, 0x74u8, 0x2du8, 0x63u8, 0x68u8,
        0x65u8, 0x63u8, 0x6bu8, 0x2du8, 0x76u8, 0x30u8, 0x30u8, 0x31u8,
    ]
}

/// The verification constant as bytes.
pub fn verification_bytes() -> (bytes: Vec<u8>)
    ensures
        bytes@ == verification_plaintext(),
{
    let bytes: Vec<u8> = vec![
        0x76u8, 0x61u8, 0x75u8, 0x6cu8, 0x74u8, 0x2du8, 0x63u8, 0x68u8,
        0x65u8, 0x63u8, 0x6bu8, 0x2du8, 0x76u8, 0x30u8, 0x30u8, 0x31u8,
    ];
    assert(bytes@ =~= verification_plaintext());
    bytes
}

/// One credential in the clear. It has no `Debug`, so that it cannot slip
/// into a log.
pub struct Credential {
    pub username: Vec<u8>,
    pub secret: Vec<u8>,
    pub site_or_note: Vec<u8>,
}

/// A credential as plain values.
pub struct CredentialView {
    pub username: Seq<u8>,
    pub secret: Seq<u8>,
    pub site_or_note: Seq<u8>,
}

impl View for Credential {
    type V = CredentialView;

    open spec fn view(&self) -> CredentialView {
        CredentialView {
            username: self.username@,
            secret: self.secret@,
            site_or_note: self.site_or_note@,
        }
    }
}

/// One line of a listing: a record's identifier, and its credential or the
/// reason it could not be read.
pub struct ListEntry {
    pub id: u64,
    pub outcome: Result<Credential, DecryptError>,
}

/// A line of a listing as plain values.
pub struct EntryView {
    pub id: u64,
    pub outcome: Result<CredentialView, DecryptError>,
}

impl View for ListEntry {
    type V = EntryView;

    open spec fn view(&self) -> EntryView {
        EntryView {
            id: self.id,
            outcome: match self.outcome {
                Ok(credential) => Ok(credential@),
                Err(e) => Err(e),
            },
        }
    }
}

/// The lines of a listing, each as plain values.
pub open spec fn entry_views(entries: Seq<ListEntry>) -> Seq<EntryView> {
    Seq::new(entries.len(), |i: int| entries[i]@)
}

/// What a record shows under `key`: its credential where all three
/// envelopes open, `IntegrityFailure` where one does not.
pub open spec fn revealed(key: Seq<u8>, record: RecordView) -> EntryView {
    EntryView {
        id: record.id,
        outcome: match (
            opened(key, record.username),
            opened(key, record.secret),
            opened(key, record.site_or_note),
        ) {
            (Ok(username), Ok(secret), Ok(site_or_note)) => Ok(
                CredentialView { username, secret, site_or_note },
            ),
            _ => Err(DecryptError::IntegrityFailure),
        },
    }
}

/// The line of a record that opens to these three fields.
pub open spec fn plain_line(
    id: u64,
    username: Seq<u8>,
    secret: Seq<u8>,
    site_or_note: Seq<u8>,
) -> EntryView {
    EntryView { id, outcome: Ok(CredentialView { username, secret, site_or_note }) }
}

/// The listing of a sequence of records under `key`: one line per record,
/// in the records' order, each depending on its own record alone.
pub open spec fn listing(key: Seq<u8>, records: Seq<RecordView>) -> Seq<EntryView> {
    Seq::new(records.len(), |i: int| revealed(key, records[i]))
}

/// Whether `passphrase` unlocks `vault`: the key derived from it and the
/// vault's salt opens the verification tag to the verification constant.
pub open spec fn passphrase_opens(vault: VaultView, passphrase: Seq<u8>) -> bool {
    valid_passphrase(passphrase) && opened(
        derive_spec(passphrase, vault.salt),
        vault.verification,
    ) == Ok::<Seq<u8>, DecryptError>(verification_plaintext())
}

/// A session as plain values.
pub struct SessionView {
    pub store: Option<VaultView>,
    pub key: Seq<u8>,
    pub unlocked: bool,
}

impl SessionView {
    /// The store is well formed; an unlocked session has a vault; a closed
    /// one holds the zero key.
    pub open spec fn wf(self) -> bool {
        &&& self.store matches Some(vault) ==> vault.wf()
        &&& self.key.len() == KEY_LEN
        &&& self.unlocked ==> self.store is Some
        &&& !self.unlocked ==> self.key == zero_key()
    }

    /// The listing that the session shows: `SessionNotOpen` while closed.
    pub open spec fn listing(self) -> Result<Seq<EntryView>, VaultError> {
        if !self.unlocked || self.store is None {
            Err(VaultError::SessionNotOpen)
        } else {
            Ok(listing(self.key, self.store.unwrap().records))
        }
    }

    /// Why `initialize` refuses, if it does, before any random byte is
    /// drawn.
    pub open spec fn initialize_refusal(self, passphrase: Seq<u8>, salt_len: nat) -> Option<
        VaultError,
    > {
        if self.unlocked {
            Some(VaultError::AlreadyOpen)
        } else if self.store is Some {
            Some(VaultError::AlreadyExists)
        } else if !valid_passphrase(passphrase) {
            Some(VaultError::InvalidPassphrase)
        } else if salt_len != SALT_LEN {
            Some(VaultError::Malformed)
        } else {
            None
        }
    }

    /// The session after a vault was created in it with this salt and this
    /// nonce for the verification tag.
    pub open spec fn initialized(self, passphrase: Seq<u8>, salt: Seq<u8>, nonce: Seq<u8>)
        -> SessionView {
        let key = derive_spec(passphrase, salt);
        SessionView {
            store: Some(VaultView::fresh(salt, sealed_with(key, nonce, verification_plaintext()))),
            key,
            unlocked: true,
        }
    }

    /// Why `open` refuses, if it does.
    pub open spec fn open_refusal(self, passphrase: Seq<u8>) -> Option<VaultError> {
        if self.unlocked {
            Some(VaultError::AlreadyOpen)
        } else if self.store is None {
            Some(VaultError::NotInitialized)
        } else if !passphrase_opens(self.store.unwrap(), passphrase) {
            Some(VaultError::AuthenticationFailed)
        } else {
            None
        }
    }

    /// The session after `passphrase` unlocked it.
    pub open spec fn unlocked_by(self, passphrase: Seq<u8>) -> SessionView {
        SessionView {
            key: derive_spec(passphrase, self.store.unwrap().salt),
            unlocked: true,
            ..self
        }
    }

    /// Why `add` refuses, if it does, before any random byte is drawn.
    pub open spec fn add_refusal(self, username: Seq<u8>, secret: Seq<u8>, site_or_note: Seq<u8>)
        -> Option<VaultError> {
        if !self.unlocked || self.store is None {
            Some(VaultError::SessionNotOpen)
        } else if username.len() > MAX_PLAINTEXT_LEN || secret.len() > MAX_PLAINTEXT_LEN
            || site_or_note.len() > MAX_PLAINTEXT_LEN {
            Some(VaultError::FieldTooLong)
        } else if self.store.unwrap().next_id >= MAX_ID {
            Some(VaultError::IdentifiersExhausted)
        } else {
            None
        }
    }

    /// No two envelopes of the session's vault start with the same nonce.
    pub open spec fn nonces_distinct(self) -> bool {
        self.store matches Some(vault) ==> vault.nonces_distinct()
    }

    /// Whether three nonces offered for one credential cannot be used: two
    /// of them are equal, or an envelope of the vault starts with one.
    pub open spec fn nonces_clash(self, nonces: (Seq<u8>, Seq<u8>, Seq<u8>)) -> bool {
        ||| nonces.0 == nonces.1
        ||| nonces.0 == nonces.2
        ||| nonces.1 == nonces.2
        ||| self.store.unwrap().uses_nonce(nonces.0)
        ||| self.store.unwrap().uses_nonce(nonces.1)
        ||| self.store.unwrap().uses_nonce(nonces.2)
    }

    /// The session after a credential was added, its three fields sealed
    /// with the three nonces given.
    pub open spec fn added(
        self,
        username: Seq<u8>,
        secret: Seq<u8>,
        site_or_note: Seq<u8>,
        nonces: (Seq<u8>, Seq<u8>, Seq<u8>),
    ) -> SessionView {
        SessionView {
            store: Some(
                self.store.unwrap().appended(
                    sealed_with(self.key, nonces.0, username),
                    sealed_with(self.key, nonces.1, secret),
                    sealed_with(self.key, nonces.2, site_or_note),
                ),
            ),
            ..self
        }
    }

    /// The session after the record that carries `id` was deleted.
    pub open spec fn deleted(self, id: u64) -> SessionView {
        SessionView { store: Some(self.store.unwrap().deleted(id)), ..self }
    }

    /// The session after it was closed: the same store, the key zeroed.
    pub open spec fn closed(self) -> SessionView {
        SessionView { key: zero_key(), unlocked: false, ..self }
    }
}

/// Opens the three envelopes of a record under `key`.
pub fn reveal_record(key: &MasterKey, record: &CredentialRecord) -> (entry: ListEntry)
    requires
        key.wf(),
    ensures
        entry@ == revealed(key@, record@),
{
    let username = open(key, &record.username);
    let secret = open(key, &record.secret);
    let site_or_note = open(key, &record.site_or_note);
    let outcome = match (username, secret, site_or_note) {
        (Ok(username), Ok(secret), Ok(site_or_note)) => Ok(
            Credential { username, secret, site_or_note },
        ),
        _ => Err(DecryptError::IntegrityFailure),
    };
    ListEntry { id: record.id, outcome }
}

/// A session on one store. It starts closed, is unlocked by a passphrase,
/// and is closed again by `close`.
pub struct VaultSession {
    store: VaultStore,
    key: MasterKey,
    unlocked: bool,
}

impl View for VaultSession {
    type V = SessionView;

    closed spec fn view(&self) -> SessionView {
        SessionView { store: self.store@, key: self.key@, unlocked: self.unlocked }
    }
}

impl VaultSession {
    /// The session's invariant, over its plain values.
    pub open spec fn wf(&self) -> bool {
        self@.wf()
    }

    /// A closed session on `store`.
    pub fn new(store: VaultStore) -> (session: VaultSession)
        requires
            store.wf(),
        ensures
            session.wf(),
            session@ == (SessionView { store: store@, key: zero_key(), unlocked: false }),
    {
        VaultSession { store, key: MasterKey::zeroed(), unlocked: false }
    }

    /// Whether the session is unlocked.
    pub fn is_unlocked(&self) -> (unlocked: bool)
        ensures
            unlocked == self@.unlocked,
    {
        self.unlocked
    }

    /// The store, for persisting it.
    pub fn store(&self) -> (store: &VaultStore)
        ensures
            store@ == self@.store,
    {
        &self.store
    }

    /// Ends the session for good and hands the store back. The key is
    /// zeroed first.
    pub fn into_store(self) -> (store: VaultStore)
        requires
            self.wf(),
        ensures
            store@ == self@.store,
            store.wf(),
    {
        let mut session = self;
        session.key.zeroize();
        session.store
    }

    /// Creates the vault with the salt and the nonce given, and unlocks the
    /// session. The verification tag is the verification constant sealed under the
    /// derived key with that nonce.
    pub fn initialize_with(
        &mut self,
        passphrase: &[u8],
        salt: Vec<u8>,
        nonce: &[u8; NONCE_LEN],
    ) -> (r: Result<(), VaultError>)
        requires
            old(self).wf(),
        ensures
            final(self).wf(),
            match r {
                Ok(_) => old(self)@.initialize_refusal(passphrase@, salt@.len()) is None
                    && final(self)@ == old(self)@.initialized(passphrase@, salt@, nonce@)
                    && passphrase_opens(final(self)@.store.unwrap(), passphrase@)
                    && final(self)@.nonces_distinct(),
                Err(e) => old(self)@.initialize_refusal(passphrase@, salt@.len()) == Some(e)
                    && final(self)@ == old(self)@,
            },
    {
        if self.unlocked {
            return Err(VaultError::AlreadyOpen);
        }
        if self.store.is_initialized() {
            return Err(VaultError::AlreadyExists);
        }
        let key = match crate::kdf::derive(passphrase, salt.as_slice()) {
            Ok(key) => key,
            Err(e) => {
                return Err(e);
            },
        };
        let constant = verification_bytes();
        let verification = match seal_with_nonce(&key, nonce, constant.as_slice()) {
            Ok(envelope) => envelope,
            Err(e) => {
                return Err(e);
            },
        };
        match self.store.initialize(salt, verification) {
            Ok(_) => {
                self.key = key;
                self.unlocked = true;
                Ok(())
            },
            Err(e) => Err(e),
        }
    }

    /// Creates the vault under `passphrase`, with a fresh random salt and a
    /// fresh random nonce, and unlocks the session.
    ///
    /// Whatever was drawn, the new vault is empty, its counter is at 1, and
    /// `passphrase` opens it. A refusal that does not depend on the random
    /// source comes first; the only other failure is `RandomSourceFailed`.
    pub fn initialize(&mut self, passphrase: &[u8]) -> (r: Result<(), VaultError>)
        requires
            old(self).wf(),
        ensures
            final(self).wf(),
            old(self)@.initialize_refusal(passphrase@, SALT_LEN as nat) matches Some(e) ==> r
                == Err::<(), VaultError>(e),
            match r {
                Ok(_) => final(self)@.store matches Some(vault) && is_framed(vault.verification)
                    && final(self)@ == old(self)@.initialized(
                    passphrase@,
                    vault.salt,
                    nonce_of(vault.verification),
                ) && passphrase_opens(vault, passphrase@) && final(self)@.nonces_distinct(),
                Err(e) => final(self)@ == old(self)@ && (old(self)@.initialize_refusal(
                    passphrase@,
                    SALT_LEN as nat,
                ) is None ==> e == VaultError::RandomSourceFailed),
            },
    {
        if self.unlocked {
            return Err(VaultError::AlreadyOpen);
        }
        if self.store.is_initialized() {
            return Err(VaultError::AlreadyExists);
        }
        if passphrase.len() == 0 || passphrase.len() > MAX_PASSPHRASE_LEN {
            return Err(VaultError::InvalidPassphrase);
        }
        let salt = match fresh_bytes(SALT_LEN) {
            Ok(salt) => salt,
            Err(e) => {
                return Err(e);
            },
        };
        let nonce = match fresh_nonce() {
            Ok(nonce) => nonce,
            Err(e) => {
                return Err(e);
            },
        };
        let ghost key = derive_spec(passphrase@, salt@);
        let r = self.initialize_with(passphrase, salt, &nonce);
        proof {
            if r is Ok {
                lemma_frame_round_trip(
                    nonce@,
                    xchacha20poly1305_seal_spec(
                        key,
                        nonce@,
                        verification_plaintext(),
                    ),
                );
            }
        }
        r
    }

    /// Unlocks the session with `passphrase`: derives the key from it and
    /// the stored salt, and accepts it where the key opens the verification
    /// tag to the verification constant. Otherwise the session stays closed
    /// and the result is `AuthenticationFailed`.
    pub fn open(&mut self, passphrase: &[u8]) -> (r: Result<(), VaultError>)
        requires
            old(self).wf(),
        ensures
            final(self).wf(),
            match r {
                Ok(_) => old(self)@.open_refusal(passphrase@) is None
                    && final(self)@ == old(self)@.unlocked_by(passphrase@),
                Err(e) => old(self)@.open_refusal(passphrase@) == Some(e)
                    && final(self)@ == old(self)@,
            },
    {
        if self.unlocked {
            return Err(VaultError::AlreadyOpen);
        }
        let vault = match self.store.load() {
            Ok(vault) => vault,
            Err(e) => {
                return Err(e);
            },
        };
        let mut key = match crate::kdf::derive(passphrase, vault.salt()) {
            Ok(key) => key,
            Err(_) => {
                return Err(VaultError::AuthenticationFailed);
            },
        };
        let accepted = match open(&key, vault.verification()) {
            Ok(plaintext) => bytes_eq(plaintext.as_slice(), verification_bytes().as_slice()),
            Err(_) => false,
        };
        if accepted {
            self.key = key;
            self.unlocked = true;
            Ok(())
        } else {
            key.zeroize();
            Err(VaultError::AuthenticationFailed)
        }
    }

    /// Adds a credential, its three fields sealed with the three nonces
    /// given, and returns the new record's identifier. The listing grows by
    /// one line at its end, which shows exactly the three fields.
    ///
    /// Nonces that are not pairwise distinct, or of which one starts an
    /// envelope already in the vault, are refused with `NonceReused`: no
    /// two envelopes that the session stores share a nonce.
    pub fn add_with_nonces(
        &mut self,
        username: &[u8],
        secret: &[u8],
        site_or_note: &[u8],
        nonces: (&[u8; NONCE_LEN], &[u8; NONCE_LEN], &[u8; NONCE_LEN]),
    ) -> (r: Result<u64, VaultError>)
        requires
            old(self).wf(),
        ensures
            final(self).wf(),
            old(self)@.nonces_distinct() ==> final(self)@.nonces_distinct(),
            match r {
                Ok(id) => {
                    &&& old(self)@.add_refusal(username@, secret@, site_or_note@) is None
                    &&& !old(self)@.nonces_clash((nonces.0@, nonces.1@, nonces.2@))
                    &&& id == old(self)@.store.unwrap().next_id
                    &&& is_framed(sealed_with(old(self)@.key, nonces.0@, username@))
                    &&& is_framed(sealed_with(old(self)@.key, nonces.1@, secret@))
                    &&& is_framed(sealed_with(old(self)@.key, nonces.2@, site_or_note@))
                    &&& final(self)@ == old(self)@.added(
                        username@,
                        secret@,
                        site_or_note@,
                        (nonces.0@, nonces.1@, nonces.2@),
                    )
                    &&& final(self)@.listing() == Ok::<Seq<EntryView>, VaultError>(
                        old(self)@.listing().unwrap().push(
                            plain_line(id, username@, secret@, site_or_note@),
                        ),
                    )
                },
                Err(e) => {
                    &&& final(self)@ == old(self)@
                    &&& match old(self)@.add_refusal(username@, secret@, site_or_note@) {
                        Some(refusal) => e == refusal,
                        None => e == VaultError::NonceReused && old(self)@.nonces_clash(
                            (nonces.0@, nonces.1@, nonces.2@),
                        ),
                    }
                },
            },
    {
        if !self.unlocked {
            return Err(VaultError::SessionNotOpen);
        }
        if username.len() > MAX_PLAINTEXT_LEN || secret.len() > MAX_PLAINTEXT_LEN
            || site_or_note.len() > MAX_PLAINTEXT_LEN {
            return Err(VaultError::FieldTooLong);
        }
        match self.store.load() {
            Ok(vault) => {
                if vault.next_id() >= MAX_ID {
                    return Err(VaultError::IdentifiersExhausted);
                }
                let (first, second, third) = (
                    nonces.0.as_slice(),
                    nonces.1.as_slice(),
                    nonces.2.as_slice(),
                );
                if bytes_eq(first, second) || bytes_eq(first, third) || bytes_eq(second, third)
                    || vault.uses_nonce(first) || vault.uses_nonce(second) || vault.uses_nonce(
                    third,
                ) {
                    return Err(VaultError::NonceReused);
                }
            },
            Err(_) => {
                return Err(VaultError::SessionNotOpen);
            },
        }
        let sealed_username = match seal_with_nonce(&self.key, nonces.0, username) {
            Ok(envelope) => envelope,
            Err(e) => {
                return Err(e);
            },
        };
        let sealed_secret = match seal_with_nonce(&self.key, nonces.1, secret) {
            Ok(envelope) => envelope,
            Err(e) => {
                return Err(e);
            },
        };
        let sealed_note = match seal_with_nonce(&self.key, nonces.2, site_or_note) {
            Ok(envelope) => envelope,
            Err(e) => {
                return Err(e);
            },
        };
        let ghost before = self@;
        let r = self.store.append(sealed_username, sealed_secret, sealed_note);
        proof {
            if let Ok(id) = r {
                let record = RecordView {
                    id,
                    username: sealed_username@,
                    secret: sealed_secret@,
                    site_or_note: sealed_note@,
                };
                let line = plain_line(id, username@, secret@, site_or_note@);
                assert(revealed(before.key, record) == line);
                assert(self@.store.unwrap().records == before.store.unwrap().records.push(
                    record,
                ));
                assert(self@.listing().unwrap() =~= before.listing().unwrap().push(line));
                lemma_sealed_starts_with_nonce(before.key, nonces.0@, username@);
                lemma_sealed_starts_with_nonce(before.key, nonces.1@, secret@);
                lemma_sealed_starts_with_nonce(
                    before.key,
                    nonces.2@,
                    site_or_note@,
                );
                if before.store.unwrap().nonces_distinct() {
                    lemma_append_keeps_nonces_distinct(
                        before.store.unwrap(),
                        sealed_username@,
                        sealed_secret@,
                        sealed_note@,
                    );
                }
            }
        }
        r
    }

    /// Adds a credential, each field sealed on its own with a fresh random
    /// nonce, and returns the new record's identifier.
    ///
    /// Whatever nonces were drawn, the listing grows by one line at its end,
    /// which shows exactly the three fields, and no envelope that was in
    /// the vault before starts with one of them. A refusal that does not
    /// depend on the random source comes first; the only other failures are
    /// `RandomSourceFailed` and, should a drawn nonce be in use already,
    /// `NonceReused`.
    pub fn add(&mut self, username: &[u8], secret: &[u8], site_or_note: &[u8]) -> (r: Result<
        u64,
        VaultError,
    >)
        requires
            old(self).wf(),
        ensures
            final(self).wf(),
            old(self)@.nonces_distinct() ==> final(self)@.nonces_distinct(),
            old(self)@.add_refusal(username@, secret@, site_or_note@) matches Some(e) ==> r
                == Err::<u64, VaultError>(e),
            match r {
                Ok(id) => {
                    &&& final(self)@.store matches Some(vault) && vault.records.len() > 0 && {
                        let nonces = (
                            nonce_of(vault.records.last().username),
                            nonce_of(vault.records.last().secret),
                            nonce_of(vault.records.last().site_or_note),
                        );
                        &&& !old(self)@.nonces_clash(nonces)
                        &&& final(self)@ == old(self)@.added(
                            username@,
                            secret@,
                            site_or_note@,
                            nonces,
                        )
                    }
                    &&& id == old(self)@.store.unwrap().next_id
                    &&& final(self)@.listing() == Ok::<Seq<EntryView>, VaultError>(
                        old(self)@.listing().unwrap().push(
                            plain_line(id, username@, secret@, site_or_note@),
                        ),
                    )
                },
                Err(e) => {
                    &&& final(self)@ == old(self)@
                    &&& old(self)@.add_refusal(username@, secret@, site_or_note@) is None ==> e
                        == VaultError::RandomSourceFailed || e == VaultError::NonceReused
                },
            },
    {
        if !self.unlocked {
            return Err(VaultError::SessionNotOpen);
        }
        if username.len() > MAX_PLAINTEXT_LEN || secret.len() > MAX_PLAINTEXT_LEN
            || site_or_note.len() > MAX_PLAINTEXT_LEN {
            return Err(VaultError::FieldTooLong);
        }
        match self.store.load() {
            Ok(vault) => {
                if vault.next_id() >= MAX_ID {
                    return Err(VaultError::IdentifiersExhausted);
                }
            },
            Err(_) => {
                return Err(VaultError::SessionNotOpen);
            },
        }
        let first = match fresh_nonce() {
            Ok(nonce) => nonce,
            Err(e) => {
                return Err(e);
            },
        };
        let second = match fresh_nonce() {
            Ok(nonce) => nonce,
            Err(e) => {
                return Err(e);
            },
        };
        let third = match fresh_nonce() {
            Ok(nonce) => nonce,
            Err(e) => {
                return Err(e);
            },
        };
        let ghost key = self@.key;
        let r = self.add_with_nonces(
            username,
            secret,
            site_or_note,
            (&first, &second, &third),
        );
        proof {
            if r is Ok {
                lemma_sealed_starts_with_nonce(key, first@, username@);
                lemma_sealed_starts_with_nonce(key, second@, secret@);
                lemma_sealed_starts_with_nonce(key, third@, site_or_note@);
            }
        }
        r
    }

    /// Lists every record in insertion order, opening each on its own. A
    /// record that does not open is reported in its line and does not keep
    /// the others from being listed.
    pub fn list(&self) -> (r: Result<Vec<ListEntry>, VaultError>)
        requires
            self.wf(),
        ensures
            match r {
                Ok(entries) => self@.listing() == Ok::<Seq<EntryView>, VaultError>(
                    entry_views(entries@),
                ) && entries@.len() == self@.store.unwrap().records.len(),
                Err(e) => self@.listing() == Err::<Seq<EntryView>, VaultError>(e),
            },
    {
        if !self.unlocked {
            return Err(VaultError::SessionNotOpen);
        }
        let records = match self.store.list() {
            Ok(records) => records,
            Err(_) => {
                return Err(VaultError::SessionNotOpen);
            },
        };
        let mut entries: Vec<ListEntry> = Vec::new();
        let mut i: usize = 0;
        while i < records.len()
            invariant
                i <= records@.len(),
                self.key.wf(),
                entries@.len() == i,
                forall|j: int|
                    0 <= j < i ==> (#[trigger] entries@[j])@ == revealed(
                        self.key@,
                        record_views(records@)[j],
                    ),
            decreases records@.len() - i,
        {
            let entry = reveal_record(&self.key, &records[i]);
            entries.push(entry);
            i += 1;
        }
        assert(entry_views(entries@) =~= listing(self.key@, record_views(records@)));
        Ok(entries)
    }

    /// Looks one record up by its identifier and opens it. `Ok(None)` says
    /// that no record carries `id`.
    pub fn find(&self, id: u64) -> (r: Result<Option<ListEntry>, VaultError>)
        requires
            self.wf(),
        ensures
            match r {
                Ok(Some(entry)) => self@.unlocked && holds_id(
                    self@.store.unwrap().records,
                    id,
                ) && entry@ == revealed(
                    self@.key,
                    self@.store.unwrap().records[index_of(
                        self@.store.unwrap().records,
                        id,
                    )],
                ),
                Ok(None) => self@.unlocked && !holds_id(
                    self@.store.unwrap().records,
                    id,
                ),
                Err(e) => !self@.unlocked && e == VaultError::SessionNotOpen,
            },
    {
        if !self.unlocked {
            return Err(VaultError::SessionNotOpen);
        }
        match self.store.find_by_id(id) {
            Ok(Some(record)) => Ok(Some(reveal_record(&self.key, record))),
            Ok(None) => Ok(None),
            Err(_) => Err(VaultError::SessionNotOpen),
        }
    }

    /// Deletes the record that carries `id`. `Ok(false)` says that no
    /// record carried it and nothing changed.
    pub fn delete(&mut self, id: u64) -> (r: Result<bool, VaultError>)
        requires
            old(self).wf(),
        ensures
            final(self).wf(),
            match r {
                Ok(removed) => old(self)@.unlocked && removed == holds_id(
                    old(self)@.store.unwrap().records,
                    id,
                ) && final(self)@ == old(self)@.deleted(id) && (old(self)@.nonces_distinct()
                    ==> final(self)@.nonces_distinct()),
                Err(e) => !old(self)@.unlocked && e == VaultError::SessionNotOpen && final(self)@
                    == old(self)@,
            },
    {
        if !self.unlocked {
            return Err(VaultError::SessionNotOpen);
        }
        proof {
            if self@.store.unwrap().nonces_distinct() {
                lemma_delete_keeps_nonces_distinct(self@.store.unwrap(), id);
            }
        }
        match self.store.delete(id) {
            Ok(removed) => Ok(removed),
            Err(_) => Err(VaultError::SessionNotOpen),
        }
    }

    /// Closes the session and overwrites the key with zeros. A session that
    /// is closed already answers `SessionNotOpen`.
    pub fn close(&mut self) -> (r: Result<(), VaultError>)
        requires
            old(self).wf(),
        ensures
            final(self).wf(),
            final(self)@ == old(self)@.closed(),
            match r {
                Ok(_) => old(self)@.unlocked,
                Err(e) => !old(self)@.unlocked && e == VaultError::SessionNotOpen,
            },
    {
        if !self.unlocked {
            return Err(VaultError::SessionNotOpen);
        }
        self.key.zeroize();
        self.unlocked = false;
        Ok(())
    }
}

/// A passphrase that does not open the verification tag is refused with
/// `AuthenticationFailed`, and the session, which stays as it was, shows no
/// listing.
pub proof fn lemma_wrong_passphrase_reads_nothing(session: SessionView, passphrase: Seq<u8>)
    requires
        session.wf(),
        !session.unlocked,
        session.store is Some,
        !passphrase_opens(session.store.unwrap(), passphrase),
    ensures
        session.open_refusal(passphrase) == Some(VaultError::AuthenticationFailed),
        session.listing() == Err::<Seq<EntryView>, VaultError>(VaultError::SessionNotOpen),
{
}

/// A passphrase that opens the verification tag unlocks the session, and
/// the listing is then that of the stored records under the derived key.
pub proof fn lemma_right_passphrase_unlocks(session: SessionView, passphrase: Seq<u8>)
    requires
        session.wf(),
        !session.unlocked,
        session.store is Some,
        passphrase_opens(session.store.unwrap(), passphrase),
    ensures
        session.open_refusal(passphrase) is None,
        session.unlocked_by(passphrase).listing() == Ok::<Seq<EntryView>, VaultError>(
            listing(
                derive_spec(passphrase, session.store.unwrap().salt),
                session.store.unwrap().records,
            ),
        ),
{
}

/// Damage stays local: when one record is replaced by any other value, be
/// it tampered or foreign, every other line of the listing is what it was.
pub proof fn lemma_damage_stays_local(
    key: Seq<u8>,
    records: Seq<RecordView>,
    k: int,
    damaged: RecordView,
)
    requires
        0 <= k < records.len(),
    ensures
        listing(key, records.update(k, damaged)).len() == listing(key, records).len(),
        listing(key, records.update(k, damaged))[k] == revealed(key, damaged),
        forall|i: int|
            0 <= i < records.len() && i != k ==> #[trigger] listing(
                key,
                records.update(k, damaged),
            )[i] == listing(key, records)[i],
{
}

/// A record with an envelope that does not open is listed as an
/// `IntegrityFailure`, and an envelope too short for a nonce and a tag
/// never opens.
pub proof fn lemma_unreadable_record_is_reported(key: Seq<u8>, record: RecordView)
    requires
        opened(key, record.username) is Err || opened(key, record.secret) is Err || opened(
            key,
            record.site_or_note,
        ) is Err,
    ensures
        revealed(key, record).id == record.id,
        revealed(key, record).outcome == Err::<CredentialView, DecryptError>(
            DecryptError::IntegrityFailure,
        ),
{
}

/// Deleting through the session removes the record from the listing and
/// from nowhere else: the lines of the other records stay, in their order.
pub proof fn lemma_delete_removes_line(session: SessionView, id: u64)
    requires
        session.wf(),
        session.unlocked,
        holds_id(session.store.unwrap().records, id),
    ensures
        session.deleted(id).wf(),
        session.deleted(id).listing().unwrap() == session.listing().unwrap().remove(
            index_of(session.store.unwrap().records, id),
        ),
        !holds_id(session.deleted(id).store.unwrap().records, id),
{
    lemma_deleted_wf(session.store.unwrap(), id);
    let k = index_of(session.store.unwrap().records, id);
    assert(session.deleted(id).listing().unwrap() =~= session.listing().unwrap().remove(k));
}

} // verus!
