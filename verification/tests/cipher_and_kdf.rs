use rusted_shut::cipher::{fresh_bytes, open, seal, seal_with_nonce};
use rusted_shut::bytes::{bytes_eq, join_bytes, copy_bytes, copy_range, zeros};
use rusted_shut::kdf::MasterKey;
use rusted_shut::{DecryptError, Envelope, VaultError};
use std::collections::HashSet;

fn test_key(fill: u8) -> MasterKey {
    MasterKey::from_bytes(&[fill; 32]).unwrap()
}

#[test]
fn derive_is_reproducible_and_depends_on_both_inputs() {
    let salt = [3u8; 16];
    let first = rusted_shut::kdf::derive(b"open sesame", &salt).unwrap();
    let second = rusted_shut::kdf::derive(b"open sesame", &salt).unwrap();
    assert_eq!(first.as_bytes(), second.as_bytes());
    assert_eq!(first.as_bytes().len(), 32);
    assert_ne!(&first.as_bytes()[..11], &b"open sesame"[..]);
    assert_ne!(first.as_bytes(), &[0u8; 32][..]);
    let other_salt = rusted_shut::kdf::derive(b"open sesame", &[4u8; 16]).unwrap();
    assert_ne!(first.as_bytes(), other_salt.as_bytes());
    let other_pass = rusted_shut::kdf::derive(b"another one", &salt).unwrap();
    assert_ne!(first.as_bytes(), other_pass.as_bytes());
}

#[test]
fn derive_refuses_an_empty_passphrase_and_a_wrong_salt() {
    let empty = rusted_shut::kdf::derive(b"", &[3u8; 16]);
    assert_eq!(empty.err(), Some(VaultError::InvalidPassphrase));
    let empty_and_short = rusted_shut::kdf::derive(b"", &[3u8; 2]);
    assert_eq!(empty_and_short.err(), Some(VaultError::InvalidPassphrase));
    let short_salt = rusted_shut::kdf::derive(b"open sesame", &[3u8; 15]);
    assert_eq!(short_salt.err(), Some(VaultError::Malformed));
    let long_salt = rusted_shut::kdf::derive(b"open sesame", &[3u8; 17]);
    assert_eq!(long_salt.err(), Some(VaultError::Malformed));
}

#[test]
fn master_key_from_bytes_checks_the_length() {
    assert_eq!(MasterKey::from_bytes(&[1u8; 31]).err(), Some(VaultError::Malformed));
    assert_eq!(MasterKey::from_bytes(&[1u8; 33]).err(), Some(VaultError::Malformed));
    let mut key = MasterKey::from_bytes(&[1u8; 32]).unwrap();
    assert_eq!(key.as_bytes(), &[1u8; 32][..]);
    key.zeroize();
    assert_eq!(key.as_bytes(), &[0u8; 32][..]);
    assert_eq!(MasterKey::zeroed().as_bytes(), &[0u8; 32][..]);
}

#[test]
fn seal_with_nonce_lays_out_nonce_ciphertext_tag() {
    let key = test_key(9);
    let nonce = [5u8; 24];
    let envelope = seal_with_nonce(&key, &nonce, b"s3cr3t").unwrap();
    assert_eq!(envelope.len(), 24 + 6 + 16);
    assert_eq!(&envelope.as_bytes()[..24], &nonce[..]);
    assert_ne!(&envelope.as_bytes()[24..30], &b"s3cr3t"[..]);
    let again = seal_with_nonce(&key, &nonce, b"s3cr3t").unwrap();
    assert_eq!(envelope.as_bytes(), again.as_bytes());
    let (head, tail) = envelope.split().unwrap();
    assert_eq!(head, nonce.to_vec());
    assert_eq!(tail, envelope.as_bytes()[24..].to_vec());
    assert_eq!(open(&key, &envelope), Ok(b"s3cr3t".to_vec()));
}

#[test]
fn seal_of_the_empty_plaintext_is_the_shortest_envelope() {
    let key = test_key(9);
    let envelope = seal(&key, b"").unwrap();
    assert_eq!(envelope.len(), 40);
    assert_eq!(open(&key, &envelope), Ok(Vec::new()));
}

#[test]
fn seal_then_open_gives_the_plaintext_back() {
    let key = test_key(1);
    for len in [0usize, 1, 15, 16, 17, 63, 64, 65, 1000] {
        let plaintext: Vec<u8> = (0..len).map(|i| (i * 7 % 251) as u8).collect();
        let envelope = seal(&key, &plaintext).unwrap();
        assert_eq!(envelope.len(), 24 + len + 16);
        assert_eq!(open(&key, &envelope), Ok(plaintext));
    }
}

#[test]
fn seal_refuses_a_plaintext_over_the_limit() {
    let key = test_key(1);
    let long = vec![0u8; rusted_shut::cipher::MAX_PLAINTEXT_LEN + 1];
    assert_eq!(seal(&key, &long).err(), Some(VaultError::FieldTooLong));
    assert_eq!(seal_with_nonce(&key, &[0u8; 24], &long).err(), Some(VaultError::FieldTooLong));
}

#[test]
fn open_under_another_key_fails() {
    let envelope = seal(&test_key(1), b"s3cr3t").unwrap();
    assert_eq!(open(&test_key(2), &envelope), Err(DecryptError::IntegrityFailure));
}

#[test]
fn flipping_any_single_byte_makes_open_fail() {
    let key = test_key(1);
    let envelope = seal(&key, b"alice:s3cr3t").unwrap();
    let bytes = envelope.as_bytes().to_vec();
    for i in 0..bytes.len() {
        for bit in [0x01u8, 0x80u8] {
            let mut damaged = bytes.clone();
            damaged[i] ^= bit;
            assert_eq!(
                open(&key, &Envelope::from_bytes(damaged)),
                Err(DecryptError::IntegrityFailure)
            );
        }
    }
    assert_eq!(open(&key, &envelope), Ok(b"alice:s3cr3t".to_vec()));
}

#[test]
fn an_envelope_too_short_to_frame_fails() {
    let key = test_key(1);
    for len in [0usize, 1, 24, 39] {
        let envelope = Envelope::from_bytes(vec![0u8; len]);
        assert!(envelope.split().is_none());
        assert_eq!(open(&key, &envelope), Err(DecryptError::IntegrityFailure));
    }
    let truncated = seal(&key, b"x").unwrap().into_bytes();
    let shorter = Envelope::from_bytes(truncated[..truncated.len() - 1].to_vec());
    assert_eq!(open(&key, &shorter), Err(DecryptError::IntegrityFailure));
}

#[test]
fn nonces_of_many_seals_are_pairwise_distinct() {
    let key = test_key(1);
    let mut seen: HashSet<Vec<u8>> = HashSet::new();
    for _ in 0..5000 {
        let envelope = seal(&key, b"x").unwrap();
        assert!(seen.insert(envelope.as_bytes()[..24].to_vec()));
    }
    assert_eq!(seen.len(), 5000);
}

#[test]
fn fresh_bytes_have_the_length_asked_for() {
    assert_eq!(fresh_bytes(0).unwrap().len(), 0);
    assert_eq!(fresh_bytes(16).unwrap().len(), 16);
    let a = fresh_bytes(32).unwrap();
    let b = fresh_bytes(32).unwrap();
    assert_eq!(a.len(), 32);
    assert_ne!(a, b);
}

#[test]
fn assemble_and_split_are_inverse() {
    let nonce = [1u8; 24];
    let sealed = [2u8; 20];
    let envelope = Envelope::assemble(&nonce, &sealed);
    assert_eq!(envelope.len(), 44);
    let (head, tail) = envelope.split().unwrap();
    assert_eq!(head, nonce.to_vec());
    assert_eq!(tail, sealed.to_vec());
    let copy = envelope.clone();
    assert_eq!(copy.as_bytes(), envelope.as_bytes());
}

#[test]
fn byte_helpers() {
    assert_eq!(copy_range(&[1, 2, 3, 4, 5], 1, 4), vec![2, 3, 4]);
    assert_eq!(copy_range(&[1, 2, 3], 2, 2), Vec::<u8>::new());
    assert_eq!(copy_bytes(&[9, 8]), vec![9, 8]);
    assert_eq!(join_bytes(&[1, 2], &[3]), vec![1, 2, 3]);
    assert_eq!(join_bytes(&[], &[]), Vec::<u8>::new());
    assert!(bytes_eq(&[1, 2], &[1, 2]));
    assert!(!bytes_eq(&[1, 2], &[1, 3]));
    assert!(!bytes_eq(&[1, 2], &[1, 2, 3]));
    assert!(bytes_eq(&[], &[]));
    assert_eq!(zeros(3), vec![0, 0, 0]);
}

#[test]
fn nonce_from_bytes_takes_exactly_the_bytes_given() {
    let bytes: Vec<u8> = (1u8..=24).collect();
    let nonce = rusted_shut::envelope::nonce_from_bytes(&bytes).unwrap();
    assert_eq!(nonce.to_vec(), bytes);
    assert!(rusted_shut::envelope::nonce_from_bytes(&bytes[..23]).is_none());
    assert!(rusted_shut::envelope::nonce_from_bytes(&[0u8; 25]).is_none());
    assert!(rusted_shut::envelope::nonce_from_bytes(&[]).is_none());
}

#[test]
fn fresh_nonces_differ_from_one_another() {
    let a = rusted_shut::cipher::fresh_nonce().unwrap();
    let b = rusted_shut::cipher::fresh_nonce().unwrap();
    assert_eq!(a.len(), 24);
    assert_ne!(a, b);
    assert_ne!(a, [0u8; 24]);
}
