//! The vault aggregate: sealed credential records in insertion order, under
//! identifiers that only grow and are never handed out twice.

use vstd::prelude::*;
use crate::envelope::{carries_nonce, is_framed, nonce_of, Envelope};
use crate::error::VaultError;
use crate::kdf::SALT_LEN;

verus! {

/// The largest value an identifier counter can reach. Identifiers start at 1
/// and stay below it.
pub const MAX_ID: u64 = 0x7FFF_FFFF_FFFF_FFFF;

/// One stored credential: an identifier and three envelopes, each sealed on
/// its own.
#[derive(Debug)]
pub struct CredentialRecord {
    pub id: u64,
    pub username: Envelope,
    pub secret: Envelope,
    pub site_or_note: Envelope,
}

/// A record as plain values.
pub struct RecordView {
    pub id: u64,
    pub username: Seq<u8>,
    pub secret: Seq<u8>,
    pub site_or_note: Seq<u8>,
}

impl View for CredentialRecord {
    type V = RecordView;

    open spec fn view(&self) -> RecordView {
        RecordView {
            id: self.id,
            username: self.username@,
            secret: self.secret@,
            site_or_note: self.site_or_note@,
        }
    }
}

impl Clone for CredentialRecord {
    fn clone(&self) -> (copy: Self)
        ensures
            copy@ == self@,
    {
        CredentialRecord {
            id: self.id,
            username: self.username.clone(),
            secret: self.secret.clone(),
            site_or_note: self.site_or_note.clone(),
        }
    }
}

/// The records of a sequence, each as plain values.
pub open spec fn record_views(records: Seq<CredentialRecord>) -> Seq<RecordView> {
    Seq::new(records.len(), |i: int| records[i]@)
}

/// Identifiers grow strictly along the sequence, so none occurs twice.
pub open spec fn ids_ascending(records: Seq<RecordView>) -> bool {
    forall|i: int, j: int|
        0 <= i < j < records.len() ==> (#[trigger] records[i]).id < (#[trigger] records[j]).id
}

/// Every identifier is at least 1 and below `next_id`.
pub open spec fn ids_within(records: Seq<RecordView>, next_id: u64) -> bool {
    forall|i: int| 0 <= i < records.len() ==> 1 <= (#[trigger] records[i]).id < next_id
}

/// Whether some record carries `id`.
pub open spec fn holds_id(records: Seq<RecordView>, id: u64) -> bool {
    exists|i: int| 0 <= i < records.len() && (#[trigger] records[i]).id == id
}

/// The place of the record that carries `id`, where there is one.
pub open spec fn index_of(records: Seq<RecordView>, id: u64) -> int {
    choose|i: int| 0 <= i < records.len() && (#[trigger] records[i]).id == id
}

/// The records without the one that carries `id`; unchanged where none does.
pub open spec fn without(records: Seq<RecordView>, id: u64) -> Seq<RecordView> {
    if holds_id(records, id) {
        records.remove(index_of(records, id))
    } else {
        records
    }
}

/// Whether one of the record's three envelopes starts with `nonce`.
pub open spec fn record_uses_nonce(record: RecordView, nonce: Seq<u8>) -> bool {
    carries_nonce(record.username, nonce) || carries_nonce(record.secret, nonce) || carries_nonce(
        record.site_or_note,
        nonce,
    )
}

/// The framed envelopes among the record's three start with different
/// nonces.
pub open spec fn record_nonces_distinct(record: RecordView) -> bool {
    &&& is_framed(record.username) && is_framed(record.secret) ==> nonce_of(record.username)
        != nonce_of(record.secret)
    &&& is_framed(record.username) && is_framed(record.site_or_note) ==> nonce_of(
        record.username,
    ) != nonce_of(record.site_or_note)
    &&& is_framed(record.secret) && is_framed(record.site_or_note) ==> nonce_of(record.secret)
        != nonce_of(record.site_or_note)
}

/// A vault as plain values.
pub struct VaultView {
    pub salt: Seq<u8>,
    pub verification: Seq<u8>,
    pub records: Seq<RecordView>,
    pub next_id: u64,
}

impl VaultView {
    /// The salt has its fixed length, the counter is in range and above
    /// every identifier in use, and identifiers grow in insertion order.
    pub open spec fn wf(self) -> bool {
        &&& self.salt.len() == SALT_LEN
        &&& 1 <= self.next_id <= MAX_ID
        &&& ids_ascending(self.records)
        &&& ids_within(self.records, self.next_id)
    }

    /// Whether some envelope of the vault, the verification tag or a field
    /// of a record, starts with `nonce`.
    pub open spec fn uses_nonce(self, nonce: Seq<u8>) -> bool {
        carries_nonce(self.verification, nonce) || exists|i: int|
            0 <= i < self.records.len() && record_uses_nonce(#[trigger] self.records[i], nonce)
    }

    /// No two envelopes of the vault start with the same nonce: not two of
    /// one record, not two of different records, and none of a record with
    /// the verification tag.
    pub open spec fn nonces_distinct(self) -> bool {
        &&& forall|i: int|
            0 <= i < self.records.len() ==> record_nonces_distinct(#[trigger] self.records[i])
                && !(is_framed(self.verification) && record_uses_nonce(
                self.records[i],
                nonce_of(self.verification),
            ))
        &&& forall|i: int, j: int, nonce: Seq<u8>|
            0 <= i < j < self.records.len() ==> !(#[trigger] record_uses_nonce(
                self.records[i],
                nonce,
            ) && #[trigger] record_uses_nonce(self.records[j], nonce))
    }

    /// A new vault: no records, the counter at 1.
    pub open spec fn fresh(salt: Seq<u8>, verification: Seq<u8>) -> VaultView {
        VaultView { salt, verification, records: Seq::empty(), next_id: 1 }
    }

    /// The vault after a record of these three envelopes was appended under
    /// the next identifier.
    pub open spec fn appended(self, username: Seq<u8>, secret: Seq<u8>, site_or_note: Seq<u8>)
        -> VaultView {
        VaultView {
            records: self.records.push(
                RecordView { id: self.next_id, username, secret, site_or_note },
            ),
            next_id: (self.next_id + 1) as u64,
            ..self
        }
    }

    /// The vault after the record that carries `id` was deleted. The counter
    /// stays where it is.
    pub open spec fn deleted(self, id: u64) -> VaultView {
        VaultView { records: without(self.records, id), ..self }
    }
}

/// In a sequence with ascending identifiers, a record that carries `id`
/// stands at `index_of`.
pub proof fn lemma_index_of_unique(records: Seq<RecordView>, id: u64, k: int)
    requires
        ids_ascending(records),
        0 <= k < records.len(),
        records[k].id == id,
    ensures
        holds_id(records, id),
        index_of(records, id) == k,
{
    let c = index_of(records, id);
    assert(0 <= c < records.len() && records[c].id == id);
    if c < k {
        assert(records[c].id < records[k].id);
    }
    if k < c {
        assert(records[k].id < records[c].id);
    }
}

/// The persisted aggregate: one salt, one verification tag, the records in
/// insertion order, and the counter that gives the next identifier.
#[derive(Debug)]
pub struct Vault {
    salt: Vec<u8>,
    verification: Envelope,
    records: Vec<CredentialRecord>,
    next_id: u64,
}

impl View for Vault {
    type V = VaultView;

    closed spec fn view(&self) -> VaultView {
        VaultView {
            salt: self.salt@,
            verification: self.verification@,
            records: record_views(self.records@),
            next_id: self.next_id,
        }
    }
}

impl Vault {
    /// The vault's invariant, over its plain values.
    pub open spec fn wf(&self) -> bool {
        self@.wf()
    }

    /// Builds a vault from persisted parts. They form a vault exactly when
    /// the invariant holds of them; otherwise the result is `Malformed`.
    pub fn from_parts(
        salt: Vec<u8>,
        verification: Envelope,
        records: Vec<CredentialRecord>,
        next_id: u64,
    ) -> (r: Result<Vault, VaultError>)
        ensures
            match r {
                Ok(vault) => vault.wf() && vault@ == (VaultView {
                    salt: salt@,
                    verification: verification@,
                    records: record_views(records@),
                    next_id,
                }),
                Err(e) => e == VaultError::Malformed && !(VaultView {
                    salt: salt@,
                    verification: verification@,
                    records: record_views(records@),
                    next_id,
                }).wf(),
            },
    {
        let ghost views = record_views(records@);
        if salt.len() != SALT_LEN || next_id < 1 || next_id > MAX_ID {
            return Err(VaultError::Malformed);
        }
        let mut i: usize = 0;
        while i < records.len()
            invariant
                i <= records.len(),
                views == record_views(records@),
                forall|a: int, b: int|
                    0 <= a < b < i ==> (#[trigger] views[a]).id < (#[trigger] views[b]).id,
                forall|a: int| 0 <= a < i ==> 1 <= (#[trigger] views[a]).id < next_id,
            decreases records.len() - i,
        {
            let id: u64 = records[i].id;
            assert(views[i as int].id == id);
            if id < 1 || id >= next_id {
                return Err(VaultError::Malformed);
            }
            if i > 0 {
                let before: u64 = records[i - 1].id;
                assert(views[i - 1].id == before);
                if before >= id {
                    return Err(VaultError::Malformed);
                }
            }
            i += 1;
        }
        Ok(Vault { salt, verification, records, next_id })
    }

    /// A new vault with no records.
    pub fn new(salt: Vec<u8>, verification: Envelope) -> (r: Result<Vault, VaultError>)
        ensures
            match r {
                Ok(vault) => salt@.len() == SALT_LEN && vault.wf() && vault@ == VaultView::fresh(
                    salt@,
                    verification@,
                ),
                Err(e) => e == VaultError::Malformed && salt@.len() != SALT_LEN,
            },
    {
        if salt.len() != SALT_LEN {
            return Err(VaultError::Malformed);
        }
        let records: Vec<CredentialRecord> = Vec::new();
        assert(record_views(records@) =~= Seq::empty());
        Ok(Vault { salt, verification, records, next_id: 1 })
    }

    /// The salt stored with the vault.
    pub fn salt(&self) -> (salt: &[u8])
        ensures
            salt@ == self@.salt,
    {
        self.salt.as_slice()
    }

    /// The verification tag stored with the vault.
    pub fn verification(&self) -> (tag: &Envelope)
        ensures
            tag@ == self@.verification,
    {
        &self.verification
    }

    /// The identifier that the next appended record will get.
    pub fn next_id(&self) -> (id: u64)
        ensures
            id == self@.next_id,
    {
        self.next_id
    }

    /// The records in insertion order.
    pub fn records(&self) -> (records: &[CredentialRecord])
        ensures
            record_views(records@) == self@.records,
    {
        self.records.as_slice()
    }

    /// Number of records.
    pub fn len(&self) -> (n: usize)
        ensures
            n == self@.records.len(),
    {
        self.records.len()
    }

    /// Whether some envelope of the vault starts with `nonce`.
    pub fn uses_nonce(&self, nonce: &[u8]) -> (used: bool)
        ensures
            used == self@.uses_nonce(nonce@),
    {
        if self.verification.carries(nonce) {
            return true;
        }
        let mut i: usize = 0;
        while i < self.records.len()
            invariant
                i <= self.records@.len(),
                !carries_nonce(self@.verification, nonce@),
                forall|a: int|
                    0 <= a < i ==> !record_uses_nonce(#[trigger] self@.records[a], nonce@),
            decreases self.records@.len() - i,
        {
            let record = &self.records[i];
            if record.username.carries(nonce) || record.secret.carries(nonce)
                || record.site_or_note.carries(nonce) {
                assert(record_uses_nonce(self@.records[i as int], nonce@));
                return true;
            }
            assert(!record_uses_nonce(self@.records[i as int], nonce@));
            i += 1;
        }
        false
    }

    /// Appends a record of three envelopes and returns its identifier: the
    /// counter's value, which then moves on by one. Once the counter has
    /// reached `MAX_ID` nothing is appended and the result is
    /// `IdentifiersExhausted`.
    pub fn append(&mut self, username: Envelope, secret: Envelope, site_or_note: Envelope) -> (r:
        Result<u64, VaultError>)
        requires
            old(self).wf(),
        ensures
            final(self).wf(),
            match r {
                Ok(id) => old(self)@.next_id < MAX_ID && id == old(self)@.next_id && final(self)@
                    == old(self)@.appended(username@, secret@, site_or_note@),
                Err(e) => old(self)@.next_id == MAX_ID && e == VaultError::IdentifiersExhausted
                    && final(self)@ == old(self)@,
            },
    {
        if self.next_id >= MAX_ID {
            return Err(VaultError::IdentifiersExhausted);
        }
        let id: u64 = self.next_id;
        let ghost before = self@;
        self.records.push(CredentialRecord { id, username, secret, site_or_note });
        self.next_id = id + 1;
        proof {
            let after = before.appended(username@, secret@, site_or_note@);
            assert(self@.records =~= after.records);
            assert(after.wf()) by {
                assert forall|i: int, j: int| 0 <= i < j < after.records.len() implies (
                #[trigger] after.records[i]).id < (#[trigger] after.records[j]).id by {
                    if j < before.records.len() {
                        assert(before.records[i].id < before.records[j].id);
                    } else {
                        assert(before.records[i].id < before.next_id);
                    }
                }
                assert forall|i: int| 0 <= i < after.records.len() implies 1 <= (
                #[trigger] after.records[i]).id < after.next_id by {
                    if i < before.records.len() {
                        assert(before.records[i].id < before.next_id);
                    }
                }
            }
        }
        Ok(id)
    }

    /// Looks a record up by its identifier.
    pub fn find_by_id(&self, id: u64) -> (r: Option<&CredentialRecord>)
        requires
            self.wf(),
        ensures
            match r {
                Some(record) => holds_id(self@.records, id) && record@ == self@.records[index_of(
                    self@.records,
                    id,
                )],
                None => !holds_id(self@.records, id),
            },
    {
        match self.position(id) {
            Some(k) => Some(&self.records[k]),
            None => None,
        }
    }

    /// The place of the record that carries `id`.
    fn position(&self, id: u64) -> (r: Option<usize>)
        requires
            self.wf(),
        ensures
            match r {
                Some(k) => holds_id(self@.records, id) && k == index_of(self@.records, id) && k
                    < self.records@.len(),
                None => !holds_id(self@.records, id),
            },
    {
        let mut i: usize = 0;
        while i < self.records.len()
            invariant
                i <= self.records@.len(),
                self.wf(),
                forall|a: int| 0 <= a < i ==> (#[trigger] self@.records[a]).id != id,
            decreases self.records@.len() - i,
        {
            if self.records[i].id == id {
                proof {
                    assert(self@.records[i as int].id == id);
                    lemma_index_of_unique(self@.records, id, i as int);
                }
                return Some(i);
            }
            assert(self@.records[i as int].id != id);
            i += 1;
        }
        None
    }

    /// Deletes the record that carries `id` and says whether there was one.
    /// The counter is left alone, so the identifier is not handed out again.
    pub fn delete(&mut self, id: u64) -> (removed: bool)
        requires
            old(self).wf(),
        ensures
            final(self).wf(),
            removed == holds_id(old(self)@.records, id),
            final(self)@ == old(self)@.deleted(id),
            !holds_id(final(self)@.records, id),
    {
        let ghost before = self@;
        match self.position(id) {
            Some(k) => {
                let _ = self.records.remove(k);
                proof {
                    let after = before.deleted(id);
                    assert(self@.records =~= after.records);
                    lemma_deleted_wf(before, id);
                }
                true
            },
            None => {
                proof {
                    lemma_deleted_wf(before, id);
                }
                false
            },
        }
    }
}

/// Deleting keeps a vault well formed, leaves no record under the deleted
/// identifier, keeps every other record in its order, and does not move the
/// counter.
pub proof fn lemma_deleted_wf(vault: VaultView, id: u64)
    requires
        vault.wf(),
    ensures
        vault.deleted(id).wf(),
        !holds_id(vault.deleted(id).records, id),
        vault.deleted(id).next_id == vault.next_id,
        forall|other: u64|
            other != id ==> holds_id(vault.deleted(id).records, other) == holds_id(
                vault.records,
                other,
            ),
{
    let after = vault.deleted(id);
    if holds_id(vault.records, id) {
        let k = index_of(vault.records, id);
        assert(0 <= k < vault.records.len() && vault.records[k].id == id);
        assert forall|i: int| 0 <= i < after.records.len() implies (#[trigger] after.records[i])
            == vault.records[if i < k {
            i
        } else {
            i + 1
        }] by {}
        assert forall|i: int, j: int| 0 <= i < j < after.records.len() implies (
        #[trigger] after.records[i]).id < (#[trigger] after.records[j]).id by {
            let a = if i < k { i } else { i + 1 };
            let b = if j < k { j } else { j + 1 };
            assert(vault.records[a].id < vault.records[b].id);
        }
        assert forall|i: int| 0 <= i < after.records.len() implies 1 <= (
        #[trigger] after.records[i]).id < after.next_id by {
            let a = if i < k { i } else { i + 1 };
            assert(1 <= vault.records[a].id < vault.next_id);
        }
        if holds_id(after.records, id) {
            let c = index_of(after.records, id);
            let a = if c < k { c } else { c + 1 };
            assert(vault.records[a].id == id);
            if a < k {
                assert(vault.records[a].id < vault.records[k].id);
            } else {
                assert(vault.records[k].id < vault.records[a].id);
            }
        }
        assert forall|other: u64| other != id implies holds_id(after.records, other) == holds_id(
            vault.records,
            other,
        ) by {
            if holds_id(after.records, other) {
                let c = index_of(after.records, other);
                let a = if c < k { c } else { c + 1 };
                assert(vault.records[a].id == other);
            }
            if holds_id(vault.records, other) {
                let c = index_of(vault.records, other);
                assert(c != k);
                let a = if c < k { c } else { c - 1 };
                assert(after.records[a].id == other);
            }
        }
    }
}

/// An identifier is never reused: whatever was appended or deleted before,
/// the identifier of the next appended record differs from every identifier
/// below the counter, those of deleted records among them, and is above
/// every identifier still in the vault.
pub proof fn lemma_identifiers_never_reused(
    vault: VaultView,
    gone: u64,
    username: Seq<u8>,
    secret: Seq<u8>,
    site_or_note: Seq<u8>,
)
    requires
        vault.wf(),
        vault.next_id < MAX_ID,
        holds_id(vault.records, gone),
    ensures
        vault.deleted(gone).appended(username, secret, site_or_note).records.last().id != gone,
        vault.deleted(gone).appended(username, secret, site_or_note).records.last().id
            == vault.next_id,
        !holds_id(vault.deleted(gone).appended(username, secret, site_or_note).records, gone),
        vault.deleted(gone).appended(username, secret, site_or_note).next_id > vault.next_id,
{
    lemma_deleted_wf(vault, gone);
    let k = index_of(vault.records, gone);
    assert(vault.records[k].id == gone);
    let mid = vault.deleted(gone);
    let after = mid.appended(username, secret, site_or_note);
    if holds_id(after.records, gone) {
        let c = index_of(after.records, gone);
        if c < mid.records.len() {
            assert(mid.records[c].id == gone);
        }
    }
}

/// Deleting an identifier that no record carries changes nothing, and so
/// does deleting one a second time.
pub proof fn lemma_delete_idempotent(vault: VaultView, id: u64)
    requires
        vault.wf(),
    ensures
        !holds_id(vault.records, id) ==> vault.deleted(id) == vault,
        vault.deleted(id).deleted(id) == vault.deleted(id),
{
    lemma_deleted_wf(vault, id);
}

/// The salt and the verification tag are fixed at creation: neither
/// appending nor deleting changes them.
pub proof fn lemma_salt_and_tag_are_fixed(
    vault: VaultView,
    username: Seq<u8>,
    secret: Seq<u8>,
    site_or_note: Seq<u8>,
    id: u64,
)
    ensures
        vault.appended(username, secret, site_or_note).salt == vault.salt,
        vault.appended(username, secret, site_or_note).verification == vault.verification,
        vault.deleted(id).salt == vault.salt,
        vault.deleted(id).verification == vault.verification,
{
}

/// A new vault has no two envelopes that start with the same nonce.
pub proof fn lemma_fresh_nonces_distinct(salt: Seq<u8>, verification: Seq<u8>)
    ensures
        VaultView::fresh(salt, verification).nonces_distinct(),
{
}

/// Appending three framed envelopes whose nonces differ from one another
/// and start no envelope of the vault keeps all nonces distinct.
pub proof fn lemma_append_keeps_nonces_distinct(
    vault: VaultView,
    username: Seq<u8>,
    secret: Seq<u8>,
    site_or_note: Seq<u8>,
)
    requires
        vault.nonces_distinct(),
        is_framed(username) && is_framed(secret) && is_framed(site_or_note),
        nonce_of(username) != nonce_of(secret),
        nonce_of(username) != nonce_of(site_or_note),
        nonce_of(secret) != nonce_of(site_or_note),
        !vault.uses_nonce(nonce_of(username)),
        !vault.uses_nonce(nonce_of(secret)),
        !vault.uses_nonce(nonce_of(site_or_note)),
    ensures
        vault.appended(username, secret, site_or_note).nonces_distinct(),
{
    let after = vault.appended(username, secret, site_or_note);
    let n = vault.records.len() as int;
    let added = after.records[n];
    assert forall|i: int| 0 <= i < after.records.len() implies record_nonces_distinct(
        #[trigger] after.records[i],
    ) && !(is_framed(after.verification) && record_uses_nonce(
        after.records[i],
        nonce_of(after.verification),
    )) by {
        if i < n {
            assert(after.records[i] == vault.records[i]);
        }
    }
    assert forall|i: int, j: int, nonce: Seq<u8>| 0 <= i < j < after.records.len() implies !(
    #[trigger] record_uses_nonce(after.records[i], nonce) && #[trigger] record_uses_nonce(
        after.records[j],
        nonce,
    )) by {
        assert(after.records[i] == vault.records[i]);
        if j < n {
            assert(after.records[j] == vault.records[j]);
        } else if record_uses_nonce(after.records[i], nonce) && record_uses_nonce(added, nonce) {
            assert(record_uses_nonce(vault.records[i], nonce));
            assert(vault.uses_nonce(nonce));
        }
    }
}

/// Deleting a record keeps all nonces distinct.
pub proof fn lemma_delete_keeps_nonces_distinct(vault: VaultView, id: u64)
    requires
        vault.nonces_distinct(),
    ensures
        vault.deleted(id).nonces_distinct(),
{
    let gone = vault.deleted(id);
    if holds_id(vault.records, id) {
        let k = index_of(vault.records, id);
        assert forall|i: int| 0 <= i < gone.records.len() implies record_nonces_distinct(
            #[trigger] gone.records[i],
        ) && !(is_framed(gone.verification) && record_uses_nonce(
            gone.records[i],
            nonce_of(gone.verification),
        )) by {
            let a = if i < k { i } else { i + 1 };
            assert(gone.records[i] == vault.records[a]);
        }
        assert forall|i: int, j: int, nonce: Seq<u8>| 0 <= i < j < gone.records.len() implies !(
        #[trigger] record_uses_nonce(gone.records[i], nonce) && #[trigger] record_uses_nonce(
            gone.records[j],
            nonce,
        )) by {
            let a = if i < k { i } else { i + 1 };
            let b = if j < k { j } else { j + 1 };
            assert(gone.records[i] == vault.records[a]);
            assert(gone.records[j] == vault.records[b]);
        }
    }
}

} // verus!
