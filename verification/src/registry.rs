//! The process-wide registry: issues monotonically increasing vault
//! identifiers and tracks one-time global initialization.

use vstd::prelude::*;

use crate::error::MurkError;

verus! {

/// The registry singleton. `next_vault_id` is the identifier the next created
/// vault will receive; it starts at 1 and only ever increases. Allocation is
/// never rolled back, even if the caller's vault creation fails afterwards.
#[derive(Clone, Copy, Debug, PartialEq, Eq, Structural)]
pub struct State {
    pub next_vault_id: u64,
    pub is_initialized: bool,
}

impl State {
    /// An initialized registry always has a positive next identifier.
    pub open spec fn wf(self) -> bool {
        self.is_initialized ==> self.next_vault_id >= 1
    }

    /// An uninitialized registry, as a host holds it before
    /// [`handle_initialize_state`] runs.
    pub fn new() -> (r: State)
        ensures
            r == (State { next_vault_id: 0, is_initialized: false }),
            r.wf(),
    {
        State { next_vault_id: 0, is_initialized: false }
    }

    /// Consumes the current identifier: the counter moves up by one.
    pub fn increase_vault_count(&mut self)
        requires
            old(self).next_vault_id < u64::MAX,
        ensures
            *final(self) == (State {
                next_vault_id: (old(self).next_vault_id + 1) as u64,
                ..*old(self)
            }),
    {
        self.next_vault_id = self.next_vault_id + 1;
    }

    /// Hands out the current vault identifier and consumes it. The returned
    /// identifier is never issued again.
    pub fn allocate_vault_id(&mut self) -> (id: u64)
        requires
            old(self).wf(),
            old(self).is_initialized,
            old(self).next_vault_id < u64::MAX,
        ensures
            id == old(self).next_vault_id,
            *final(self) == (State {
                next_vault_id: (old(self).next_vault_id + 1) as u64,
                ..*old(self)
            }),
            final(self).wf(),
    {
        let id = self.next_vault_id;
        self.increase_vault_count();
        id
    }
}

/// One-time global initialization: fails with `AlreadyInitialized` on every
/// call after the first, and then leaves the registry untouched.
pub fn handle_initialize_state(state: &mut State) -> (r: Result<(), MurkError>)
    ensures
        old(state).wf() ==> final(state).wf(),
        old(state).is_initialized ==> r == Err::<(), MurkError>(MurkError::AlreadyInitialized)
            && *final(state) == *old(state),
        !old(state).is_initialized ==> r == Ok::<(), MurkError>(())
            && *final(state) == (State { next_vault_id: 1, is_initialized: true }),
{
    if state.is_initialized {
        return Err(MurkError::AlreadyInitialized);
    }
    state.next_vault_id = 1;
    state.is_initialized = true;
    Ok(())
}

} // verus!
