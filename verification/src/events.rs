//! Event records describing committed state changes.
//!
//! The core computes these; delivering them to an event sink is the host's
//! job and nothing here depends on whether delivery happens.

use vstd::prelude::*;

verus! {

/// A vault was created.
#[derive(Clone, Copy, Debug, PartialEq, Eq, Structural)]
pub struct VaultCreated {
    pub creator: u64,
    pub vault_id: u64,
}

/// A deposit was committed to a vault.
#[derive(Clone, Copy, Debug, PartialEq, Eq, Structural)]
pub struct VaultDeposit {
    pub amount: u64,
    pub depositor: u64,
    pub vault_id: u64,
}

/// A withdrawal was completed and the balance debited.
#[derive(Clone, Copy, Debug, PartialEq, Eq, Structural)]
pub struct VaultWithdrawal {
    pub amount: u64,
    pub vault_id: u64,
    pub withdrawer: u64,
}

/// A vault was frozen.
#[derive(Clone, Copy, Debug, PartialEq, Eq, Structural)]
pub struct VaultFrozen {
    pub vault_id: u64,
}

/// A vault was unfrozen.
#[derive(Clone, Copy, Debug, PartialEq, Eq, Structural)]
pub struct VaultUnfrozen {
    pub vault_id: u64,
}

/// A vault was permanently closed.
#[derive(Clone, Copy, Debug, PartialEq, Eq, Structural)]
pub struct VaultClosed {
    pub vault_id: u64,
}

} // verus!
