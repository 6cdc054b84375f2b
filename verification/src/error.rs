//! The error taxonomy of the custody core.
//!
//! Every precondition violation surfaces a distinct error kind; no operation
//! mutates state when it returns an error.

use vstd::prelude::*;

verus! {

/// Every way a custody operation can be refused.
///
/// Authorization: `Unauthorized`, `OwnershipMismatch`.
/// Lifecycle conflicts: `AlreadyInitialized`, `AlreadyFrozen`, `NotFrozen`,
/// `AlreadyClosed`, `VaultFrozen`, `VaultClosed`, `InvalidWithdrawalStatus`.
/// Capacity: `GuardianListFull`, `WithdrawalRequestLimitReached`,
/// `DepositLimitExceeded`.
/// Not found: `GuardianNotFound`, `DepositNotFound`.
/// Bad arguments: `InvalidAmount`, `InsufficientBalance`, `AlreadyGuardian`.
#[derive(Clone, Copy, Debug, PartialEq, Eq, Structural)]
pub enum MurkError {
    /// The caller is neither the vault creator nor a guardian.
    Unauthorized,
    /// The caller does not own the deposit entry it tries to act on.
    OwnershipMismatch,
    /// The registry was initialized a second time.
    AlreadyInitialized,
    /// `freeze` was called on a vault that is already frozen.
    AlreadyFrozen,
    /// `unfreeze` was called on a vault that is not frozen.
    NotFrozen,
    /// `close` was called on a vault that is already closed.
    AlreadyClosed,
    /// A deposit or withdrawal was attempted on a frozen vault.
    VaultFrozen,
    /// A mutation was attempted on a permanently closed vault.
    VaultClosed,
    /// The candidate is already a guardian of this vault.
    AlreadyGuardian,
    /// The guardian set already holds its maximum number of members.
    GuardianListFull,
    /// The candidate is not a guardian of this vault.
    GuardianNotFound,
    /// No deposit entry exists for this vault and depositor.
    DepositNotFound,
    /// The cumulative balance would exceed the vault's deposit cap.
    DepositLimitExceeded,
    /// A deposit of zero was attempted.
    InvalidAmount,
    /// The request would commit more than the depositor's balance.
    InsufficientBalance,
    /// Every withdrawal-request slot is occupied.
    WithdrawalRequestLimitReached,
    /// The withdrawal request is not in a status that allows this step.
    InvalidWithdrawalStatus,
}

impl MurkError {
    /// A human-readable description of the error, for hosts that report it.
    pub fn message(&self) -> String {
        match self {
            MurkError::Unauthorized => "signer is not vault creator or guardian".to_string(),
            MurkError::OwnershipMismatch => "signer does not own the deposit entry".to_string(),
            MurkError::AlreadyInitialized => "program state already initialized".to_string(),
            MurkError::AlreadyFrozen => "vault is already frozen".to_string(),
            MurkError::NotFrozen => "vault is not frozen".to_string(),
            MurkError::AlreadyClosed => "vault is already closed".to_string(),
            MurkError::VaultFrozen => "vault is frozen; action cannot be performed".to_string(),
            MurkError::VaultClosed => "vault is closed; action cannot be performed".to_string(),
            MurkError::AlreadyGuardian => "vault guardian already added".to_string(),
            MurkError::GuardianListFull => "vault guardian list is full".to_string(),
            MurkError::GuardianNotFound => "vault guardian does not exist".to_string(),
            MurkError::DepositNotFound => "no deposit exists for this vault and depositor".to_string(),
            MurkError::DepositLimitExceeded => "deposit would exceed the vault's limit".to_string(),
            MurkError::InvalidAmount => "amount must be greater than zero".to_string(),
            MurkError::InsufficientBalance => "withdrawal requests would exceed the balance".to_string(),
            MurkError::WithdrawalRequestLimitReached => "max number of withdrawal requests reached".to_string(),
            MurkError::InvalidWithdrawalStatus => "withdrawal request status does not allow this step".to_string(),
        }
    }
}

} // verus!
