use murkfi::error::MurkError;
use murkfi::events::VaultDeposit;
use murkfi::ledger::{handle_deposit, DepositLedger};
use murkfi::registry::{handle_initialize_state, State};
use murkfi::vault::{
    handle_close_vault, handle_create_vault, handle_freeze_vault, handle_unfreeze_vault, Vault,
};

const CREATOR: u64 = 11;
const DEPOSITOR: u64 = 41;
const OTHER_DEPOSITOR: u64 = 42;

fn fresh_vault(max_deposit: Option<u64>) -> Vault {
    let mut st = State::new();
    assert_eq!(handle_initialize_state(&mut st), Ok(()));
    let (vault, _) = handle_create_vault(&mut st, CREATOR, 7, max_deposit);
    vault
}

#[test]
fn deposit_freeze_unfreeze_scenario() {
    // Initialize the registry, create vault 1, deposit 100: the balance is
    // 100. A deposit on the frozen vault fails; after unfreezing, another 50
    // brings the balance to 150.
    let mut st = State::new();
    assert_eq!(handle_initialize_state(&mut st), Ok(()));
    let (mut vault, _) = handle_create_vault(&mut st, CREATOR, 7, None);
    assert_eq!(vault.id, 1);
    let mut ledger = DepositLedger::new();

    assert_eq!(ledger.deposit(&vault, DEPOSITOR, 100), Ok(()));
    assert_eq!(ledger.balance_of(1, DEPOSITOR), 100);

    assert!(handle_freeze_vault(&mut vault, CREATOR).is_ok());
    assert_eq!(
        ledger.deposit(&vault, DEPOSITOR, 50),
        Err(MurkError::VaultFrozen)
    );
    assert_eq!(ledger.balance_of(1, DEPOSITOR), 100);

    assert!(handle_unfreeze_vault(&mut vault, CREATOR).is_ok());
    assert_eq!(ledger.deposit(&vault, DEPOSITOR, 50), Ok(()));
    assert_eq!(ledger.balance_of(1, DEPOSITOR), 150);
}

#[test]
fn balances_are_per_depositor_and_per_vault() {
    let mut st = State::new();
    assert_eq!(handle_initialize_state(&mut st), Ok(()));
    let (v1, _) = handle_create_vault(&mut st, CREATOR, 7, None);
    let (v2, _) = handle_create_vault(&mut st, CREATOR, 7, None);
    let mut ledger = DepositLedger::new();
    assert_eq!(ledger.deposit(&v1, DEPOSITOR, 10), Ok(()));
    assert_eq!(ledger.deposit(&v1, OTHER_DEPOSITOR, 20), Ok(()));
    assert_eq!(ledger.deposit(&v2, DEPOSITOR, 30), Ok(()));
    assert_eq!(ledger.balance_of(1, DEPOSITOR), 10);
    assert_eq!(ledger.balance_of(1, OTHER_DEPOSITOR), 20);
    assert_eq!(ledger.balance_of(2, DEPOSITOR), 30);
    assert_eq!(ledger.balance_of(2, OTHER_DEPOSITOR), 0);
    assert_eq!(ledger.balance_of(3, DEPOSITOR), 0);
}

#[test]
fn deposit_rejects_zero_amount() {
    let vault = fresh_vault(None);
    let mut ledger = DepositLedger::new();
    assert_eq!(
        ledger.deposit(&vault, DEPOSITOR, 0),
        Err(MurkError::InvalidAmount)
    );
    assert_eq!(ledger.balance_of(1, DEPOSITOR), 0);
}

#[test]
fn deposit_rejects_when_closed() {
    let mut vault = fresh_vault(None);
    assert!(handle_close_vault(&mut vault, CREATOR).is_ok());
    let mut ledger = DepositLedger::new();
    assert_eq!(
        ledger.deposit(&vault, DEPOSITOR, 5),
        Err(MurkError::VaultClosed)
    );
}

#[test]
fn deposit_cap_is_cumulative() {
    let vault = fresh_vault(Some(100));
    let mut ledger = DepositLedger::new();
    assert_eq!(
        ledger.deposit(&vault, DEPOSITOR, 101),
        Err(MurkError::DepositLimitExceeded)
    );
    assert_eq!(ledger.deposit(&vault, DEPOSITOR, 60), Ok(()));
    assert_eq!(
        ledger.deposit(&vault, DEPOSITOR, 41),
        Err(MurkError::DepositLimitExceeded)
    );
    assert_eq!(ledger.balance_of(1, DEPOSITOR), 60);
    assert_eq!(ledger.deposit(&vault, DEPOSITOR, 40), Ok(()));
    assert_eq!(ledger.balance_of(1, DEPOSITOR), 100);
    // The cap is per depositor: another depositor still has headroom.
    assert_eq!(ledger.deposit(&vault, OTHER_DEPOSITOR, 100), Ok(()));
}

#[test]
fn deposit_without_cap_stops_at_representable_balance() {
    let vault = fresh_vault(None);
    let mut ledger = DepositLedger::new();
    assert_eq!(ledger.deposit(&vault, DEPOSITOR, u64::MAX), Ok(()));
    assert_eq!(
        ledger.deposit(&vault, DEPOSITOR, 1),
        Err(MurkError::DepositLimitExceeded)
    );
    assert_eq!(ledger.balance_of(1, DEPOSITOR), u64::MAX);
}

#[test]
fn handle_deposit_reports_event() {
    let vault = fresh_vault(None);
    let mut ledger = DepositLedger::new();
    assert_eq!(
        handle_deposit(&vault, &mut ledger, DEPOSITOR, 75),
        Ok(VaultDeposit {
            amount: 75,
            depositor: DEPOSITOR,
            vault_id: 1
        })
    );
    assert_eq!(ledger.balance_of(1, DEPOSITOR), 75);
    assert_eq!(
        handle_deposit(&vault, &mut ledger, DEPOSITOR, 0),
        Err(MurkError::InvalidAmount)
    );
}

#[test]
fn balance_is_sum_of_deposits() {
    let vault = fresh_vault(None);
    let mut ledger = DepositLedger::new();
    let amounts = [5u64, 17, 1, 100, 3];
    let mut expected: u64 = 0;
    for a in amounts {
        assert_eq!(ledger.deposit(&vault, DEPOSITOR, a), Ok(()));
        expected += a;
        assert_eq!(ledger.balance_of(1, DEPOSITOR), expected);
    }
    assert_eq!(expected, 126);
    assert_eq!(ledger.balance_of(1, DEPOSITOR), 126);
}
