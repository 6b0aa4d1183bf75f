//! Authenticated encryption of single fields into envelopes.

use vstd::prelude::*;
use chacha20poly1305::aead::Aead;
use chacha20poly1305::KeyInit;
use crate::envelope::{
    framed, is_framed, lemma_frame_round_trip, nonce_of, sealed_of, Envelope, NONCE_LEN, TAG_LEN,
};
use crate::error::{DecryptError, VaultError};
use crate::kdf::MasterKey;

verus! {

/// The longest field that can be sealed: 16 MiB.
pub const MAX_PLAINTEXT_LEN: usize = 0x100_0000;

/// The error type of the `chacha20poly1305` crate, carried through unread.
#[verifier::external_type_specification]
#[verifier::external_body]
pub struct ExAeadError(chacha20poly1305::Error);

/// The error type of the `getrandom` crate, carried through unread.
#[verifier::external_type_specification]
#[verifier::external_body]
pub struct ExRandomError(getrandom::Error);

/// Ciphertext and tag that XChaCha20-Poly1305 computes for a plaintext under
/// a key and a nonce, with no associated data.
pub uninterp spec fn xchacha20poly1305_seal_spec(
    key: Seq<u8>,
    nonce: Seq<u8>,
    plaintext: Seq<u8>,
) -> Seq<u8>;

/// The plaintext that XChaCha20-Poly1305 releases for ciphertext-with-tag
/// under a key and a nonce, or `None` where the tag does not match.
pub uninterp spec fn xchacha20poly1305_open_spec(
    key: Seq<u8>,
    nonce: Seq<u8>,
    sealed: Seq<u8>,
) -> Option<Seq<u8>>;

/// Calls `encrypt` of `chacha20poly1305::XChaCha20Poly1305`.
///
/// Trusted: the result is a function of key, nonce and plaintext; it is the
/// ciphertext followed by a tag of 16 bytes; decrypting it under the same
/// key and nonce gives the plaintext back; and the call refuses exactly the
/// plaintexts of 2^32 - 1 or more blocks of 64 bytes.
#[verifier::external_body]
fn aead_encrypt(key: &[u8], nonce: &[u8], plaintext: &[u8]) -> (r: Result<
    Vec<u8>,
    chacha20poly1305::Error,
>)
    requires
        key.len() == 32,
        nonce.len() == 24,
        plaintext.len() + 16 <= usize::MAX,
    ensures
        r is Ok <==> plaintext.len() / 64 < 0xFFFF_FFFF,
        r matches Ok(sealed) ==> sealed@ == xchacha20poly1305_seal_spec(key@, nonce@, plaintext@)
            && sealed@.len() == plaintext@.len() + 16 && xchacha20poly1305_open_spec(
            key@,
            nonce@,
            sealed@,
        ) == Some(plaintext@),
{
    let cipher = chacha20poly1305::XChaCha20Poly1305::new(chacha20poly1305::Key::from_slice(key));
    cipher.encrypt(chacha20poly1305::XNonce::from_slice(nonce), plaintext)
}

/// Calls `decrypt` of `chacha20poly1305::XChaCha20Poly1305`.
///
/// Trusted: the result is a function of key, nonce and input; an error is
/// returned where the input is shorter than a tag, too long for the cipher,
/// or its tag does not match; a plaintext that is released is 16 bytes, the
/// tag, shorter than the input.
#[verifier::external_body]
fn aead_decrypt(key: &[u8], nonce: &[u8], sealed: &[u8]) -> (r: Result<
    Vec<u8>,
    chacha20poly1305::Error,
>)
    requires
        key.len() == 32,
        nonce.len() == 24,
    ensures
        match r {
            Ok(plaintext) => xchacha20poly1305_open_spec(key@, nonce@, sealed@) == Some(
                plaintext@,
            ) && plaintext@.len() + 16 == sealed@.len(),
            Err(_) => xchacha20poly1305_open_spec(key@, nonce@, sealed@) is None,
        },
{
    let cipher = chacha20poly1305::XChaCha20Poly1305::new(chacha20poly1305::Key::from_slice(key));
    cipher.decrypt(chacha20poly1305::XNonce::from_slice(nonce), sealed)
}

/// Calls `getrandom::getrandom` on a buffer of `n` bytes.
///
/// Trusted: on success the buffer still has `n` bytes. Nothing is claimed of
/// their values.
#[verifier::external_body]
fn random_bytes(n: usize) -> (r: Result<Vec<u8>, getrandom::Error>)
    ensures
        r matches Ok(out) ==> out@.len() == n,
{
    let mut out = vec![0u8; n];
    getrandom::getrandom(&mut out)?;
    Ok(out)
}

/// The envelope that sealing `plaintext` under `key` with `nonce` gives.
pub open spec fn sealed_with(key: Seq<u8>, nonce: Seq<u8>, plaintext: Seq<u8>) -> Seq<u8> {
    framed(nonce, xchacha20poly1305_seal_spec(key, nonce, plaintext))
}

/// What opening `envelope` under `key` gives: the plaintext, or
/// `IntegrityFailure` where the envelope is not framed or does not
/// authenticate.
pub open spec fn opened(key: Seq<u8>, envelope: Seq<u8>) -> Result<Seq<u8>, DecryptError> {
    if !is_framed(envelope) {
        Err(DecryptError::IntegrityFailure)
    } else {
        match xchacha20poly1305_open_spec(key, nonce_of(envelope), sealed_of(envelope)) {
            Some(plaintext) => Ok(plaintext),
            None => Err(DecryptError::IntegrityFailure),
        }
    }
}

/// A sealed envelope that is framed starts with the nonce it was sealed
/// with, and what follows the nonce is the cipher's output.
pub proof fn lemma_sealed_starts_with_nonce(key: Seq<u8>, nonce: Seq<u8>, plaintext: Seq<u8>)
    requires
        nonce.len() == NONCE_LEN,
        is_framed(sealed_with(key, nonce, plaintext)),
    ensures
        nonce_of(sealed_with(key, nonce, plaintext)) == nonce,
        sealed_of(sealed_with(key, nonce, plaintext)) == xchacha20poly1305_seal_spec(
            key,
            nonce,
            plaintext,
        ),
{
    lemma_frame_round_trip(nonce, xchacha20poly1305_seal_spec(key, nonce, plaintext));
}

/// An envelope too short to hold a nonce and a tag opens under no key.
pub proof fn lemma_short_envelope_fails(key: Seq<u8>, envelope: Seq<u8>)
    requires
        !is_framed(envelope),
    ensures
        opened(key, envelope) == Err::<Seq<u8>, DecryptError>(DecryptError::IntegrityFailure),
{
}

/// Fresh random bytes from the system, or `RandomSourceFailed`.
pub fn fresh_bytes(n: usize) -> (r: Result<Vec<u8>, VaultError>)
    ensures
        match r {
            Ok(out) => out@.len() == n,
            Err(e) => e == VaultError::RandomSourceFailed,
        },
{
    match random_bytes(n) {
        Ok(out) => Ok(out),
        Err(_) => Err(VaultError::RandomSourceFailed),
    }
}

/// A fresh random nonce from the system, or `RandomSourceFailed`.
pub fn fresh_nonce() -> (r: Result<[u8; NONCE_LEN], VaultError>)
    ensures
        r matches Err(e) ==> e == VaultError::RandomSourceFailed,
{
    match fresh_bytes(NONCE_LEN) {
        Ok(bytes) => {
            match crate::envelope::nonce_from_bytes(bytes.as_slice()) {
                Some(nonce) => Ok(nonce),
                None => Err(VaultError::RandomSourceFailed),
            }
        },
        Err(e) => Err(e),
    }
}

/// Seals `plaintext` under `key` with the nonce given.
///
/// The envelope is the nonce, then the ciphertext, then the tag, and it
/// opens under `key` to `plaintext`. A plaintext over `MAX_PLAINTEXT_LEN`
/// bytes is `FieldTooLong`; nothing else fails. The caller sees to it that a
/// nonce is never used twice under one key.
pub fn seal_with_nonce(key: &MasterKey, nonce: &[u8; NONCE_LEN], plaintext: &[u8]) -> (r:
    Result<Envelope, VaultError>)
    requires
        key.wf(),
    ensures
        match r {
            Ok(envelope) => plaintext@.len() <= MAX_PLAINTEXT_LEN && envelope@ == sealed_with(
                key@,
                nonce@,
                plaintext@,
            ) && envelope@.len() == NONCE_LEN + plaintext@.len() + TAG_LEN && opened(
                key@,
                envelope@,
            ) == Ok::<Seq<u8>, DecryptError>(plaintext@),
            Err(e) => plaintext@.len() > MAX_PLAINTEXT_LEN && e == VaultError::FieldTooLong,
        },
{
    if plaintext.len() > MAX_PLAINTEXT_LEN {
        return Err(VaultError::FieldTooLong);
    }
    match aead_encrypt(key.as_bytes(), nonce.as_slice(), plaintext) {
        Ok(sealed) => {
            let envelope = Envelope::assemble(nonce.as_slice(), sealed.as_slice());
            proof {
                lemma_frame_round_trip(nonce@, sealed@);
            }
            Ok(envelope)
        },
        Err(_) => Err(VaultError::FieldTooLong),
    }
}

/// Seals `plaintext` under `key` with a fresh random nonce.
///
/// Whatever nonce was drawn, the envelope starts with it, is the sealing of
/// `plaintext` under it, and opens under `key` to `plaintext`. A plaintext
/// over `MAX_PLAINTEXT_LEN` bytes is always `FieldTooLong`; the only other
/// failure is `RandomSourceFailed`.
pub fn seal(key: &MasterKey, plaintext: &[u8]) -> (r: Result<Envelope, VaultError>)
    requires
        key.wf(),
    ensures
        plaintext@.len() > MAX_PLAINTEXT_LEN ==> r == Err::<Envelope, VaultError>(
            VaultError::FieldTooLong,
        ),
        match r {
            Ok(envelope) => plaintext@.len() <= MAX_PLAINTEXT_LEN && is_framed(envelope@)
                && envelope@ == sealed_with(key@, nonce_of(envelope@), plaintext@) && opened(
                key@,
                envelope@,
            ) == Ok::<Seq<u8>, DecryptError>(plaintext@),
            Err(e) => if plaintext@.len() > MAX_PLAINTEXT_LEN {
                e == VaultError::FieldTooLong
            } else {
                e == VaultError::RandomSourceFailed
            },
        },
{
    if plaintext.len() > MAX_PLAINTEXT_LEN {
        return Err(VaultError::FieldTooLong);
    }
    match fresh_nonce() {
        Ok(nonce) => {
            let r = seal_with_nonce(key, &nonce, plaintext);
            proof {
                if r is Ok {
                    lemma_frame_round_trip(
                        nonce@,
                        xchacha20poly1305_seal_spec(key@, nonce@, plaintext@),
                    );
                }
            }
            r
        },
        Err(e) => Err(e),
    }
}

/// Opens an envelope under `key`.
///
/// Fails with `IntegrityFailure` where the envelope is too short or its tag
/// does not match; a wrong key and damaged bytes are not told apart.
pub fn open(key: &MasterKey, envelope: &Envelope) -> (r: Result<Vec<u8>, DecryptError>)
    requires
        key.wf(),
    ensures
        match r {
            Ok(plaintext) => opened(key@, envelope@) == Ok::<Seq<u8>, DecryptError>(plaintext@)
                && plaintext@.len() + NONCE_LEN + TAG_LEN == envelope@.len(),
            Err(e) => opened(key@, envelope@) == Err::<Seq<u8>, DecryptError>(e),
        },
{
    match envelope.split() {
        None => Err(DecryptError::IntegrityFailure),
        Some((nonce, sealed)) => {
            match aead_decrypt(key.as_bytes(), nonce.as_slice(), sealed.as_slice()) {
                Ok(plaintext) => Ok(plaintext),
                Err(_) => Err(DecryptError::IntegrityFailure),
            }
        },
    }
}

} // verus!
