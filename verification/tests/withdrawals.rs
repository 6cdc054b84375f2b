use murkfi::error::MurkError;
use murkfi::events::VaultWithdrawal;
use murkfi::ledger::{handle_withdrawal, DepositLedger};
use murkfi::registry::{handle_initialize_state, State};
use murkfi::user::{
    UserDeposit, WithdrawalStatus, MAX_WITHDRAWAL_REQUESTS, WITHDRAWAL_COOLDOWN,
};
use murkfi::vault::{handle_create_vault, handle_freeze_vault, Vault};

const CREATOR: u64 = 11;
const DEPOSITOR: u64 = 41;
const STRANGER: u64 = 99;

fn vault_and_ledger(balance: u64) -> (Vault, DepositLedger) {
    let mut st = State::new();
    assert_eq!(handle_initialize_state(&mut st), Ok(()));
    let (vault, _) = handle_create_vault(&mut st, CREATOR, 7, None);
    let mut ledger = DepositLedger::new();
    assert_eq!(ledger.deposit(&vault, DEPOSITOR, balance), Ok(()));
    (vault, ledger)
}

fn status_of(ledger: &DepositLedger, slot: usize) -> WithdrawalStatus {
    let entry = ledger
        .entries
        .iter()
        .find(|e| e.vault == 1 && e.depositor == DEPOSITOR)
        .expect("entry exists");
    entry.withdrawals[slot].status
}

#[test]
fn queue_capacity_is_ten() {
    // A depositor with balance 100 fills slot 0 with a request of 40, then
    // the remaining nine slots; an eleventh initiation fails.
    let (vault, mut ledger) = vault_and_ledger(100);
    assert_eq!(ledger.initiate_withdrawal(&vault, DEPOSITOR, 40, 0), Ok(()));
    assert_eq!(status_of(&ledger, 0), WithdrawalStatus::Initiated);
    for _ in 1..MAX_WITHDRAWAL_REQUESTS {
        assert_eq!(ledger.initiate_withdrawal(&vault, DEPOSITOR, 5, 0), Ok(()));
    }
    for slot in 0..MAX_WITHDRAWAL_REQUESTS {
        assert_ne!(status_of(&ledger, slot), WithdrawalStatus::Free);
    }
    assert_eq!(
        ledger.initiate_withdrawal(&vault, DEPOSITOR, 5, 0),
        Err(MurkError::WithdrawalRequestLimitReached)
    );
    assert_eq!(ledger.balance_of(1, DEPOSITOR), 100);
}

#[test]
fn initiate_rejects_over_commitment() {
    let (vault, mut ledger) = vault_and_ledger(100);
    assert_eq!(
        ledger.initiate_withdrawal(&vault, DEPOSITOR, 101, 0),
        Err(MurkError::InsufficientBalance)
    );
    assert_eq!(ledger.initiate_withdrawal(&vault, DEPOSITOR, 60, 0), Ok(()));
    // 60 of the 100 are already committed: 50 more would over-commit.
    assert_eq!(
        ledger.initiate_withdrawal(&vault, DEPOSITOR, 50, 0),
        Err(MurkError::InsufficientBalance)
    );
    assert_eq!(ledger.initiate_withdrawal(&vault, DEPOSITOR, 40, 0), Ok(()));
}

#[test]
fn initiate_requires_vault_open_and_entry() {
    let (mut vault, mut ledger) = vault_and_ledger(100);
    assert_eq!(
        ledger.initiate_withdrawal(&vault, STRANGER, 10, 0),
        Err(MurkError::DepositNotFound)
    );
    assert!(handle_freeze_vault(&mut vault, CREATOR).is_ok());
    assert_eq!(
        ledger.initiate_withdrawal(&vault, DEPOSITOR, 10, 0),
        Err(MurkError::VaultFrozen)
    );
}

#[test]
fn request_lifecycle_respects_cooldown() {
    let (vault, mut ledger) = vault_and_ledger(100);
    let t0: u64 = 1_000_000;
    assert_eq!(ledger.initiate_withdrawal(&vault, DEPOSITOR, 40, t0), Ok(()));
    assert_eq!(status_of(&ledger, 0), WithdrawalStatus::Initiated);

    // Initiated -> Cooldown at once.
    assert_eq!(ledger.advance_withdrawal(1, DEPOSITOR, 0, t0), Ok(()));
    assert_eq!(status_of(&ledger, 0), WithdrawalStatus::Cooldown);

    // Still cooling down one second before the cooldown elapses.
    let early = t0 + WITHDRAWAL_COOLDOWN - 1;
    assert_eq!(ledger.advance_withdrawal(1, DEPOSITOR, 0, early), Ok(()));
    assert_eq!(status_of(&ledger, 0), WithdrawalStatus::Cooldown);

    // Ready exactly when it elapses.
    let due = t0 + WITHDRAWAL_COOLDOWN;
    assert_eq!(ledger.advance_withdrawal(1, DEPOSITOR, 0, due), Ok(()));
    assert_eq!(status_of(&ledger, 0), WithdrawalStatus::Ready);

    // A ready request cannot be advanced further.
    assert_eq!(
        ledger.advance_withdrawal(1, DEPOSITOR, 0, due),
        Err(MurkError::InvalidWithdrawalStatus)
    );
}

#[test]
fn completion_debits_balance() {
    let (vault, mut ledger) = vault_and_ledger(100);
    let t0: u64 = 0;
    assert_eq!(ledger.initiate_withdrawal(&vault, DEPOSITOR, 40, t0), Ok(()));
    // Completion is refused before the request is ready.
    assert_eq!(
        handle_withdrawal(&vault, &mut ledger, DEPOSITOR, 0),
        Err(MurkError::InvalidWithdrawalStatus)
    );
    assert_eq!(ledger.advance_withdrawal(1, DEPOSITOR, 0, t0), Ok(()));
    assert_eq!(
        ledger.advance_withdrawal(1, DEPOSITOR, 0, WITHDRAWAL_COOLDOWN),
        Ok(())
    );
    assert_eq!(status_of(&ledger, 0), WithdrawalStatus::Ready);
    assert_eq!(
        handle_withdrawal(&vault, &mut ledger, DEPOSITOR, 0),
        Ok(VaultWithdrawal {
            amount: 40,
            vault_id: 1,
            withdrawer: DEPOSITOR
        })
    );
    assert_eq!(ledger.balance_of(1, DEPOSITOR), 60);
    assert_eq!(status_of(&ledger, 0), WithdrawalStatus::Completed);
    // The completed slot is terminal until it is freed.
    assert_eq!(
        handle_withdrawal(&vault, &mut ledger, DEPOSITOR, 0),
        Err(MurkError::InvalidWithdrawalStatus)
    );
}

#[test]
fn balance_is_deposits_minus_completed_withdrawals() {
    let (vault, mut ledger) = vault_and_ledger(100);
    assert_eq!(ledger.deposit(&vault, DEPOSITOR, 30), Ok(()));
    assert_eq!(ledger.initiate_withdrawal(&vault, DEPOSITOR, 40, 0), Ok(()));
    assert_eq!(ledger.initiate_withdrawal(&vault, DEPOSITOR, 25, 0), Ok(()));
    for slot in 0..2 {
        assert_eq!(ledger.advance_withdrawal(1, DEPOSITOR, slot, 0), Ok(()));
        assert_eq!(
            ledger.advance_withdrawal(1, DEPOSITOR, slot, WITHDRAWAL_COOLDOWN),
            Ok(())
        );
    }
    assert!(handle_withdrawal(&vault, &mut ledger, DEPOSITOR, 0).is_ok());
    assert!(handle_withdrawal(&vault, &mut ledger, DEPOSITOR, 1).is_ok());
    // 100 + 30 deposited, 40 + 25 withdrawn.
    assert_eq!(ledger.balance_of(1, DEPOSITOR), 65);
}

#[test]
fn cancel_frees_committed_amount() {
    let (vault, mut ledger) = vault_and_ledger(100);
    assert_eq!(ledger.initiate_withdrawal(&vault, DEPOSITOR, 80, 0), Ok(()));
    assert_eq!(
        ledger.initiate_withdrawal(&vault, DEPOSITOR, 30, 0),
        Err(MurkError::InsufficientBalance)
    );
    assert_eq!(ledger.cancel_withdrawal(1, DEPOSITOR, 0), Ok(()));
    assert_eq!(status_of(&ledger, 0), WithdrawalStatus::Cancelled);
    // No funds moved; the commitment is released.
    assert_eq!(ledger.balance_of(1, DEPOSITOR), 100);
    assert_eq!(ledger.initiate_withdrawal(&vault, DEPOSITOR, 30, 0), Ok(()));
    // A cancelled slot cannot be cancelled again.
    assert_eq!(
        ledger.cancel_withdrawal(1, DEPOSITOR, 0),
        Err(MurkError::InvalidWithdrawalStatus)
    );
}

#[test]
fn freed_slot_is_reused_first() {
    let (vault, mut ledger) = vault_and_ledger(100);
    assert_eq!(ledger.initiate_withdrawal(&vault, DEPOSITOR, 10, 0), Ok(()));
    assert_eq!(ledger.initiate_withdrawal(&vault, DEPOSITOR, 20, 0), Ok(()));
    assert_eq!(ledger.cancel_withdrawal(1, DEPOSITOR, 0), Ok(()));
    let entry = ledger
        .entries
        .iter_mut()
        .find(|e| e.vault == 1 && e.depositor == DEPOSITOR)
        .expect("entry exists");
    entry.remove_withdrawal_request(0);
    assert_eq!(entry.withdrawals[0].status, WithdrawalStatus::Free);
    assert_eq!(entry.withdrawals[0].amount, 0);
    // The first-match scan picks the freed slot again.
    assert_eq!(ledger.initiate_withdrawal(&vault, DEPOSITOR, 5, 7), Ok(()));
    assert_eq!(status_of(&ledger, 0), WithdrawalStatus::Initiated);
}

#[test]
fn entry_level_ownership_is_checked() {
    let mut entry = UserDeposit::new(1, DEPOSITOR, 100);
    assert_eq!(
        entry.initiate_withdrawal(STRANGER, 10, 0),
        Err(MurkError::OwnershipMismatch)
    );
    assert_eq!(entry.initiate_withdrawal(DEPOSITOR, 10, 0), Ok(()));
    assert_eq!(
        entry.cancel_withdrawal(STRANGER, 0),
        Err(MurkError::OwnershipMismatch)
    );
    assert_eq!(
        entry.complete_withdrawal(STRANGER, 0),
        Err(MurkError::OwnershipMismatch)
    );
}

#[test]
fn entry_level_queue_walks_all_statuses() {
    let mut entry = UserDeposit::new(1, DEPOSITOR, 100);
    assert_eq!(entry.initiate_withdrawal(DEPOSITOR, 60, 5), Ok(()));
    assert_eq!(entry.withdrawals[0].amount, 60);
    assert_eq!(entry.withdrawals[0].initiated_timestamp, 5);
    assert_eq!(entry.advance_withdrawal(0, 5), Ok(()));
    assert_eq!(entry.withdrawals[0].status, WithdrawalStatus::Cooldown);
    assert_eq!(entry.advance_withdrawal(0, 5 + WITHDRAWAL_COOLDOWN), Ok(()));
    assert_eq!(entry.withdrawals[0].status, WithdrawalStatus::Ready);
    assert_eq!(entry.complete_withdrawal(DEPOSITOR, 0), Ok(60));
    assert_eq!(entry.amount, 40);
    assert_eq!(entry.withdrawals[0].status, WithdrawalStatus::Completed);
    entry.remove_withdrawal_request(0);
    assert_eq!(entry.withdrawals[0].status, WithdrawalStatus::Free);
}

#[test]
fn entry_add_amount_accumulates() {
    let mut entry = UserDeposit::new(3, DEPOSITOR, 10);
    entry.add_amount(15);
    assert_eq!(entry.amount, 25);
    assert_eq!(entry.vault, 3);
    assert_eq!(entry.withdrawals.len(), MAX_WITHDRAWAL_REQUESTS);
}

#[test]
fn advance_unknown_entry_fails() {
    let (_vault, mut ledger) = vault_and_ledger(100);
    assert_eq!(
        ledger.advance_withdrawal(1, STRANGER, 0, 0),
        Err(MurkError::DepositNotFound)
    );
    assert_eq!(
        ledger.cancel_withdrawal(1, STRANGER, 0),
        Err(MurkError::DepositNotFound)
    );
}
