//! The mutual-exclusion marker of a vault: at most one holder at a time,
//! and a second one is told at once that the vault is busy.

use vstd::prelude::*;
use crate::error::VaultError;

verus! {

/// The state of a vault's lock marker.
#[derive(Clone, Copy, Debug, PartialEq, Eq, Structural)]
pub enum LockState {
    /// Nobody holds the vault.
    Free,
    /// Somebody holds the vault.
    Held,
}

/// What an attempt to take the lock leads to: the marker afterwards, and
/// whether the attempt succeeded.
pub open spec fn acquired(state: LockState) -> (LockState, Result<(), VaultError>) {
    match state {
        LockState::Free => (LockState::Held, Ok(())),
        LockState::Held => (LockState::Held, Err(VaultError::VaultBusy)),
    }
}

/// The lock marker of one vault.
#[derive(Debug)]
pub struct VaultLock {
    state: LockState,
}

impl View for VaultLock {
    type V = LockState;

    closed spec fn view(&self) -> LockState {
        self.state
    }
}

impl VaultLock {
    /// A marker that nobody holds.
    pub fn new() -> (lock: VaultLock)
        ensures
            lock@ == LockState::Free,
    {
        VaultLock { state: LockState::Free }
    }

    /// A marker in the state that was found.
    pub fn observed(state: LockState) -> (lock: VaultLock)
        ensures
            lock@ == state,
    {
        VaultLock { state }
    }

    /// The marker's state.
    pub fn state(&self) -> (state: LockState)
        ensures
            state == self@,
    {
        self.state
    }

    /// Takes the lock where it is free. Where it is held the attempt fails
    /// at once with `VaultBusy` and the marker stays as it is.
    pub fn try_acquire(&mut self) -> (r: Result<(), VaultError>)
        ensures
            (final(self)@, r) == acquired(old(self)@),
    {
        match self.state {
            LockState::Free => {
                self.state = LockState::Held;
                Ok(())
            },
            LockState::Held => Err(VaultError::VaultBusy),
        }
    }

    /// Gives the lock up.
    pub fn release(&mut self)
        ensures
            final(self)@ == LockState::Free,
    {
        self.state = LockState::Free;
    }
}

/// Whatever the marker's state, an attempt succeeds exactly where the lock
/// is free, leaves it held, and a second attempt with no release between
/// them sees `VaultBusy`: of two holders in a row, only the first gets in.
pub proof fn lemma_one_holder_at_a_time(state: LockState)
    ensures
        acquired(state).1 is Ok <==> state == LockState::Free,
        acquired(state).1 is Err ==> acquired(state).1 == Err::<(), VaultError>(
            VaultError::VaultBusy,
        ),
        acquired(state).0 == LockState::Held,
        acquired(acquired(state).0) == (
            LockState::Held,
            Err::<(), VaultError>(VaultError::VaultBusy),
        ),
{
}

} // verus!
