//! The byte layout of a sealed field: a fixed-width nonce, then the
//! ciphertext, then a fixed-width authentication tag.

use vstd::prelude::*;
use crate::bytes::{bytes_eq, copy_bytes, copy_range, join_bytes};

verus! {

/// Width of the nonce that starts every envelope.
pub const NONCE_LEN: usize = 24;

/// Width of the authentication tag that ends every envelope.
pub const TAG_LEN: usize = 16;

/// The least number of bytes an envelope can have: a nonce and a tag around
/// an empty ciphertext.
pub const MIN_ENVELOPE_LEN: usize = 40;

/// Whether `bytes` is long enough to be split into nonce, ciphertext and tag.
pub open spec fn is_framed(bytes: Seq<u8>) -> bool {
    bytes.len() >= MIN_ENVELOPE_LEN
}

/// The nonce prefix of a framed envelope.
pub open spec fn nonce_of(bytes: Seq<u8>) -> Seq<u8> {
    bytes.subrange(0, NONCE_LEN as int)
}

/// What follows the nonce: ciphertext and tag together.
pub open spec fn sealed_of(bytes: Seq<u8>) -> Seq<u8> {
    bytes.subrange(NONCE_LEN as int, bytes.len() as int)
}

/// The ciphertext between nonce and tag.
pub open spec fn ciphertext_of(bytes: Seq<u8>) -> Seq<u8> {
    bytes.subrange(NONCE_LEN as int, bytes.len() - TAG_LEN)
}

/// The tag suffix of a framed envelope.
pub open spec fn tag_of(bytes: Seq<u8>) -> Seq<u8> {
    bytes.subrange(bytes.len() - TAG_LEN, bytes.len() as int)
}

/// Whether `envelope` is framed and starts with `nonce`.
pub open spec fn carries_nonce(envelope: Seq<u8>, nonce: Seq<u8>) -> bool {
    is_framed(envelope) && nonce_of(envelope) == nonce
}

/// The envelope made of a nonce and of ciphertext-with-tag.
pub open spec fn framed(nonce: Seq<u8>, sealed: Seq<u8>) -> Seq<u8> {
    nonce + sealed
}

/// Takes exactly `NONCE_LEN` bytes as a nonce, byte for byte; any other
/// length gives `None`.
pub fn nonce_from_bytes(bytes: &[u8]) -> (r: Option<[u8; NONCE_LEN]>)
    ensures
        r is Some <==> bytes@.len() == NONCE_LEN,
        r matches Some(nonce) ==> nonce@ == bytes@,
{
    if bytes.len() != NONCE_LEN {
        return None;
    }
    let mut nonce = [0u8; NONCE_LEN];
    let mut i: usize = 0;
    while i < NONCE_LEN
        invariant
            i <= NONCE_LEN,
            bytes@.len() == NONCE_LEN,
            forall|j: int| 0 <= j < i ==> nonce@[j] == bytes@[j],
        decreases NONCE_LEN - i,
    {
        nonce[i] = bytes[i];
        i += 1;
    }
    assert(nonce@ =~= bytes@);
    Some(nonce)
}

/// One sealed field as it is persisted. Any byte string can be held; only a
/// framed one can be opened.
#[derive(Debug)]
pub struct Envelope {
    bytes: Vec<u8>,
}

impl View for Envelope {
    type V = Seq<u8>;

    closed spec fn view(&self) -> Seq<u8> {
        self.bytes@
    }
}

impl Clone for Envelope {
    fn clone(&self) -> (copy: Self)
        ensures
            copy@ == self@,
    {
        Envelope { bytes: copy_bytes(self.bytes.as_slice()) }
    }
}

impl Envelope {
    /// Takes persisted bytes as an envelope, unchanged.
    pub fn from_bytes(bytes: Vec<u8>) -> (env: Envelope)
        ensures
            env@ == bytes@,
    {
        Envelope { bytes }
    }

    /// The bytes to persist.
    pub fn as_bytes(&self) -> (bytes: &[u8])
        ensures
            bytes@ == self@,
    {
        self.bytes.as_slice()
    }

    /// The bytes to persist, owned.
    pub fn into_bytes(self) -> (bytes: Vec<u8>)
        ensures
            bytes@ == self@,
    {
        self.bytes
    }

    /// Number of bytes in the envelope.
    pub fn len(&self) -> (n: usize)
        ensures
            n == self@.len(),
    {
        self.bytes.len()
    }

    /// Puts a nonce in front of ciphertext-with-tag.
    pub fn assemble(nonce: &[u8], sealed: &[u8]) -> (env: Envelope)
        requires
            nonce.len() + sealed.len() <= usize::MAX,
        ensures
            env@ == framed(nonce@, sealed@),
    {
        Envelope { bytes: join_bytes(nonce, sealed) }
    }

    /// Whether the envelope is framed and starts with `nonce`.
    pub fn carries(&self, nonce: &[u8]) -> (found: bool)
        ensures
            found == carries_nonce(self@, nonce@),
    {
        if self.bytes.len() < MIN_ENVELOPE_LEN {
            false
        } else {
            let head = copy_range(self.bytes.as_slice(), 0, NONCE_LEN);
            bytes_eq(head.as_slice(), nonce)
        }
    }

    /// Splits the envelope into its nonce and its ciphertext-with-tag, or
    /// gives `None` when it is too short to hold both a nonce and a tag.
    pub fn split(&self) -> (parts: Option<(Vec<u8>, Vec<u8>)>)
        ensures
            parts is Some <==> is_framed(self@),
            parts matches Some((nonce, sealed)) ==> nonce@ == nonce_of(self@) && sealed@
                == sealed_of(self@),
    {
        let n: usize = self.bytes.len();
        if n < MIN_ENVELOPE_LEN {
            None
        } else {
            let nonce = copy_range(self.bytes.as_slice(), 0, NONCE_LEN);
            let sealed = copy_range(self.bytes.as_slice(), NONCE_LEN, n);
            Some((nonce, sealed))
        }
    }
}

/// Splitting an assembled envelope gives back the nonce and the
/// ciphertext-with-tag it was made of, and the three parts of a framed
/// envelope, laid end to end, are the envelope.
pub proof fn lemma_frame_round_trip(nonce: Seq<u8>, sealed: Seq<u8>)
    requires
        nonce.len() == NONCE_LEN,
        sealed.len() >= TAG_LEN,
    ensures
        is_framed(framed(nonce, sealed)),
        nonce_of(framed(nonce, sealed)) == nonce,
        sealed_of(framed(nonce, sealed)) == sealed,
        ciphertext_of(framed(nonce, sealed)) + tag_of(framed(nonce, sealed)) == sealed,
{
    let e = framed(nonce, sealed);
    assert(nonce_of(e) =~= nonce);
    assert(sealed_of(e) =~= sealed);
    assert(ciphertext_of(e) + tag_of(e) =~= sealed);
}

} // verus!
