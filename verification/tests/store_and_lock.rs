use rusted_shut::vault::MAX_ID;
use rusted_shut::{
    CredentialRecord, Envelope, LockState, Vault, VaultError, VaultLock, VaultStore,
};

fn env(tag: u8) -> Envelope {
    Envelope::from_bytes(vec![tag; 41])
}

fn record(id: u64) -> CredentialRecord {
    CredentialRecord { id, username: env(1), secret: env(2), site_or_note: env(3) }
}

fn store_with(n: u64) -> VaultStore {
    let mut store = VaultStore::empty();
    store.initialize(vec![0u8; 16], env(0)).unwrap();
    for i in 0..n {
        assert_eq!(store.append(env(1), env(2), env(3)), Ok(i + 1));
    }
    store
}

fn ids(store: &VaultStore) -> Vec<u64> {
    store.list().unwrap().iter().map(|r| r.id).collect()
}

#[test]
fn initialize_fails_where_a_vault_exists() {
    let mut store = VaultStore::empty();
    assert!(!store.is_initialized());
    assert_eq!(store.load().err(), Some(VaultError::NotInitialized));
    assert_eq!(store.initialize(vec![0u8; 3], env(0)), Err(VaultError::Malformed));
    assert!(!store.is_initialized());
    assert_eq!(store.initialize(vec![7u8; 16], env(9)), Ok(()));
    assert!(store.is_initialized());
    store.append(env(1), env(2), env(3)).unwrap();
    assert_eq!(store.initialize(vec![8u8; 16], env(0)), Err(VaultError::AlreadyExists));
    let vault = store.load().unwrap();
    assert_eq!(vault.salt(), &[7u8; 16][..]);
    assert_eq!(vault.verification().as_bytes(), env(9).as_bytes());
    assert_eq!(vault.len(), 1);
}

#[test]
fn an_empty_store_refuses_record_operations() {
    let mut store = VaultStore::empty();
    assert_eq!(store.append(env(1), env(2), env(3)), Err(VaultError::NotInitialized));
    assert_eq!(store.list().err(), Some(VaultError::NotInitialized));
    assert_eq!(store.delete(1), Err(VaultError::NotInitialized));
    assert_eq!(store.find_by_id(1).err(), Some(VaultError::NotInitialized));
}

#[test]
fn append_hands_out_growing_identifiers_in_insertion_order() {
    let mut store = store_with(0);
    let a = store.append(env(10), env(11), env(12)).unwrap();
    let b = store.append(env(20), env(21), env(22)).unwrap();
    assert_eq!((a, b), (1, 2));
    let records = store.list().unwrap();
    assert_eq!(records.len(), 2);
    assert_eq!(records[0].username.as_bytes(), env(10).as_bytes());
    assert_eq!(records[0].secret.as_bytes(), env(11).as_bytes());
    assert_eq!(records[0].site_or_note.as_bytes(), env(12).as_bytes());
    assert_eq!(records[1].username.as_bytes(), env(20).as_bytes());
    assert_eq!(store.load().unwrap().next_id(), 3);
}

#[test]
fn delete_of_a_missing_identifier_is_not_found() {
    let mut store = store_with(3);
    assert_eq!(store.delete(0), Ok(false));
    assert_eq!(store.delete(4), Ok(false));
    assert_eq!(store.delete(u64::MAX), Ok(false));
    assert_eq!(ids(&store), vec![1, 2, 3]);
}

#[test]
fn delete_removes_the_record_and_its_identifier_is_never_reused() {
    let mut store = store_with(3);
    assert_eq!(store.delete(2), Ok(true));
    assert_eq!(ids(&store), vec![1, 3]);
    assert_eq!(store.delete(2), Ok(false));
    assert_eq!(store.delete(3), Ok(true));
    assert_eq!(ids(&store), vec![1]);
    assert_eq!(store.append(env(1), env(2), env(3)), Ok(4));
    assert_eq!(store.delete(1), Ok(true));
    assert_eq!(store.delete(4), Ok(true));
    assert_eq!(ids(&store), Vec::<u64>::new());
    assert_eq!(store.append(env(1), env(2), env(3)), Ok(5));
    assert_eq!(ids(&store), vec![5]);
}

#[test]
fn find_by_id_gives_the_record_or_none() {
    let mut store = store_with(0);
    store.append(env(10), env(11), env(12)).unwrap();
    store.append(env(20), env(21), env(22)).unwrap();
    let found = store.find_by_id(2).unwrap().unwrap();
    assert_eq!(found.id, 2);
    assert_eq!(found.secret.as_bytes(), env(21).as_bytes());
    assert!(store.find_by_id(3).unwrap().is_none());
    assert!(store.find_by_id(0).unwrap().is_none());
    let copy = found.clone();
    assert_eq!(copy.id, 2);
    assert_eq!(copy.username.as_bytes(), env(20).as_bytes());
}

#[test]
fn from_parts_accepts_exactly_well_formed_parts() {
    let ok = Vault::from_parts(vec![0u8; 16], env(0), vec![record(1), record(4)], 5).unwrap();
    assert_eq!(ok.len(), 2);
    assert_eq!(ok.next_id(), 5);
    assert_eq!(ok.records()[1].id, 4);
    assert!(Vault::from_parts(vec![0u8; 16], env(0), Vec::new(), 1).is_ok());

    let bad_salt = Vault::from_parts(vec![0u8; 8], env(0), Vec::new(), 1);
    assert_eq!(bad_salt.err(), Some(VaultError::Malformed));
    let zero_counter = Vault::from_parts(vec![0u8; 16], env(0), Vec::new(), 0);
    assert_eq!(zero_counter.err(), Some(VaultError::Malformed));
    let big_counter = Vault::from_parts(vec![0u8; 16], env(0), Vec::new(), MAX_ID + 1);
    assert_eq!(big_counter.err(), Some(VaultError::Malformed));
    let repeated = Vault::from_parts(vec![0u8; 16], env(0), vec![record(2), record(2)], 5);
    assert_eq!(repeated.err(), Some(VaultError::Malformed));
    let descending = Vault::from_parts(vec![0u8; 16], env(0), vec![record(3), record(2)], 5);
    assert_eq!(descending.err(), Some(VaultError::Malformed));
    let at_counter = Vault::from_parts(vec![0u8; 16], env(0), vec![record(5)], 5);
    assert_eq!(at_counter.err(), Some(VaultError::Malformed));
    let zero_id = Vault::from_parts(vec![0u8; 16], env(0), vec![record(0)], 5);
    assert_eq!(zero_id.err(), Some(VaultError::Malformed));
}

#[test]
fn identifiers_run_out_at_the_limit() {
    let mut vault = Vault::from_parts(vec![0u8; 16], env(0), Vec::new(), MAX_ID - 1).unwrap();
    assert_eq!(vault.append(env(1), env(2), env(3)), Ok(MAX_ID - 1));
    assert_eq!(vault.next_id(), MAX_ID);
    assert_eq!(vault.append(env(1), env(2), env(3)), Err(VaultError::IdentifiersExhausted));
    assert_eq!(vault.len(), 1);
    assert!(vault.delete(MAX_ID - 1));
    assert_eq!(vault.append(env(1), env(2), env(3)), Err(VaultError::IdentifiersExhausted));
    assert!(vault.find_by_id(MAX_ID - 1).is_none());
}

#[test]
fn new_vault_is_empty() {
    let vault = Vault::new(vec![1u8; 16], env(4)).unwrap();
    assert_eq!(vault.len(), 0);
    assert_eq!(vault.next_id(), 1);
    assert_eq!(vault.salt(), &[1u8; 16][..]);
    assert_eq!(Vault::new(vec![1u8; 17], env(4)).err(), Some(VaultError::Malformed));
}

#[test]
fn of_two_attempts_on_the_lock_only_the_first_succeeds() {
    let mut lock = VaultLock::new();
    assert_eq!(lock.state(), LockState::Free);
    assert_eq!(lock.try_acquire(), Ok(()));
    assert_eq!(lock.state(), LockState::Held);
    assert_eq!(lock.try_acquire(), Err(VaultError::VaultBusy));
    assert_eq!(lock.state(), LockState::Held);
    lock.release();
    assert_eq!(lock.state(), LockState::Free);
    assert_eq!(lock.try_acquire(), Ok(()));
}

#[test]
fn a_lock_found_held_is_busy() {
    let mut found = VaultLock::observed(LockState::Held);
    assert_eq!(found.try_acquire(), Err(VaultError::VaultBusy));
    let mut free = VaultLock::observed(LockState::Free);
    assert_eq!(free.try_acquire(), Ok(()));
}
