//! The deposit ledger: one entry per (vault, depositor) pair, created on a
//! depositor's first deposit.
//!
//! The ledger validates deposits against the vault's lifecycle flags and
//! deposit cap, answers balance queries, and carries the ledger-level
//! withdrawal flow by locating the caller's entry and driving its queue.

use vstd::prelude::*;

use crate::error::MurkError;
use crate::events::{VaultDeposit, VaultWithdrawal};
use crate::user::{
    has_free_slot, is_first_free, is_live, live_total, spec_empty_request, UserDeposit,
    WithdrawalRequest, WithdrawalStatus, MAX_WITHDRAWAL_REQUESTS, WITHDRAWAL_COOLDOWN,
};
use crate::vault::Vault;

verus! {

/// The effective cumulative cap of a vault: its `max_deposit` when set, else
/// the largest balance the ledger can represent.
pub open spec fn spec_cap(v: Vault) -> int {
    match v.max_deposit {
        Some(m) => m as int,
        None => u64::MAX as int,
    }
}

/// One committed balance-changing action on a single (vault, depositor)
/// record: a validated deposit's credit, or a completed withdrawal's debit.
/// No other operation of this library changes any balance (see their
/// contracts).
#[derive(Clone, Copy, Debug, PartialEq, Eq, Structural)]
pub enum BalanceAction {
    Deposited(u64),
    Withdrew(u64),
}

/// The balance after one committed action, as the operations' contracts
/// state it: [`DepositLedger::deposit`] credits exactly its amount, and
/// [`handle_withdrawal`] debits exactly the completed request's amount.
pub open spec fn apply_action(balance: int, action: BalanceAction) -> int {
    match action {
        BalanceAction::Deposited(x) => balance + x,
        BalanceAction::Withdrew(x) => balance - x,
    }
}

/// The balance after a history of committed actions, applied in order.
pub open spec fn replay(balance: int, history: Seq<BalanceAction>) -> int
    decreases history.len(),
{
    if history.len() <= 0 {
        balance
    } else {
        replay(apply_action(balance, history[0]), history.drop_first())
    }
}

/// The sum of all amounts a history deposited.
pub open spec fn total_deposited(history: Seq<BalanceAction>) -> int
    decreases history.len(),
{
    if history.len() <= 0 {
        0
    } else {
        (match history[0] {
            BalanceAction::Deposited(x) => x as int,
            BalanceAction::Withdrew(_) => 0,
        }) + total_deposited(history.drop_first())
    }
}

/// The sum of all amounts a history withdrew.
pub open spec fn total_withdrawn(history: Seq<BalanceAction>) -> int
    decreases history.len(),
{
    if history.len() <= 0 {
        0
    } else {
        (match history[0] {
            BalanceAction::Deposited(_) => 0,
            BalanceAction::Withdrew(x) => x as int,
        }) + total_withdrawn(history.drop_first())
    }
}

/// For any sequence of committed deposits and completed withdrawals on one
/// (vault, depositor) record, the resulting balance equals the starting
/// balance plus everything deposited minus everything withdrawn. Each
/// operation's contract fixes its exact balance delta — a credit of the
/// deposited amount, a debit of the completed request's amount, and zero for
/// everything else — so a session's balance is this replay of its history.
pub proof fn lemma_balance_is_net_of_history(balance: int, history: Seq<BalanceAction>)
    ensures
        replay(balance, history) == balance + total_deposited(history) - total_withdrawn(history),
    decreases history.len(),
{
    if history.len() > 0 {
        lemma_balance_is_net_of_history(apply_action(balance, history[0]), history.drop_first());
    }
}

/// The entry recorded for `(v, d)`: the first element with those keys, and
/// in a well-formed ledger the only one.
pub open spec fn spec_entry(s: Seq<UserDeposit>, v: u64, d: u64) -> Option<UserDeposit>
    decreases s.len(),
{
    if s.len() <= 0 {
        None
    } else if s[0].vault == v && s[0].depositor == d {
        Some(s[0])
    } else {
        spec_entry(s.drop_first(), v, d)
    }
}

/// The balance recorded for `(v, d)`: zero when no entry exists.
pub open spec fn spec_balance(s: Seq<UserDeposit>, v: u64, d: u64) -> u64 {
    match spec_entry(s, v, d) {
        Some(e) => e.amount,
        None => 0,
    }
}

/// Every entry is well-formed.
pub open spec fn entries_wf(s: Seq<UserDeposit>) -> bool {
    forall|i: int| 0 <= i < s.len() ==> (#[trigger] s[i]).wf()
}

/// No two entries share a (vault, depositor) pair.
pub open spec fn unique_keys(s: Seq<UserDeposit>) -> bool {
    forall|i: int, j: int|
        #![trigger s[i], s[j]]
        0 <= i < j < s.len() ==> !(s[i].vault == s[j].vault && s[i].depositor == s[j].depositor)
}

/// A first match at `i` is what the scan records.
proof fn lemma_spec_entry_found(s: Seq<UserDeposit>, v: u64, d: u64, i: int)
    requires
        0 <= i < s.len(),
        s[i].vault == v && s[i].depositor == d,
        forall|k: int| 0 <= k < i ==> !((#[trigger] s[k]).vault == v && s[k].depositor == d),
    ensures
        spec_entry(s, v, d) == Some(s[i]),
    decreases i,
{
    if i > 0 {
        assert(!(s[0].vault == v && s[0].depositor == d));
        assert(s.drop_first()[i - 1] == s[i]);
        assert forall|k: int|
            0 <= k < i - 1 implies !((#[trigger] s.drop_first()[k]).vault == v
            && s.drop_first()[k].depositor == d) by {
            assert(s.drop_first()[k] == s[k + 1]);
        }
        lemma_spec_entry_found(s.drop_first(), v, d, i - 1);
    }
}

/// A scan that matches nowhere records no entry.
proof fn lemma_spec_entry_none(s: Seq<UserDeposit>, v: u64, d: u64)
    requires
        forall|k: int| 0 <= k < s.len() ==> !((#[trigger] s[k]).vault == v && s[k].depositor == d),
    ensures
        spec_entry(s, v, d) == None::<UserDeposit>,
    decreases s.len(),
{
    if s.len() > 0 {
        assert forall|k: int|
            0 <= k < s.drop_first().len() implies !((#[trigger] s.drop_first()[k]).vault == v
            && s.drop_first()[k].depositor == d) by {
            assert(s.drop_first()[k] == s[k + 1]);
        }
        lemma_spec_entry_none(s.drop_first(), v, d);
    }
}

/// Replacing the first `(v, d)` match with an entry under the same keys
/// records the new entry there and disturbs no other pair.
proof fn lemma_spec_entry_update(s: Seq<UserDeposit>, i: int, e: UserDeposit)
    requires
        0 <= i < s.len(),
        e.vault == s[i].vault,
        e.depositor == s[i].depositor,
        forall|k: int|
            0 <= k < i ==> !((#[trigger] s[k]).vault == s[i].vault && s[k].depositor
                == s[i].depositor),
    ensures
        spec_entry(s.update(i, e), s[i].vault, s[i].depositor) == Some(e),
        forall|v: u64, d: u64|
            !(v == s[i].vault && d == s[i].depositor) ==> #[trigger] spec_entry(
                s.update(i, e),
                v,
                d,
            ) == spec_entry(s, v, d),
    decreases s.len(),
{
    let v0 = s[i].vault;
    let d0 = s[i].depositor;
    let t = s.update(i, e);
    if i == 0 {
        assert(t[0] == e);
        assert(t.drop_first() =~= s.drop_first());
    } else {
        assert(t[0] == s[0]);
        assert(!(s[0].vault == v0 && s[0].depositor == d0));
        assert(t.drop_first() =~= s.drop_first().update(i - 1, e));
        assert(s.drop_first()[i - 1] == s[i]);
        assert forall|k: int|
            0 <= k < i - 1 implies !((#[trigger] s.drop_first()[k]).vault == v0
            && s.drop_first()[k].depositor == d0) by {
            assert(s.drop_first()[k] == s[k + 1]);
        }
        lemma_spec_entry_update(s.drop_first(), i - 1, e);
        assert forall|v: u64, d: u64| !(v == v0 && d == d0) implies #[trigger] spec_entry(t, v, d)
            == spec_entry(s, v, d) by {
            if !(s[0].vault == v && s[0].depositor == d) {
                assert(spec_entry(t, v, d) == spec_entry(t.drop_first(), v, d));
                assert(spec_entry(s, v, d) == spec_entry(s.drop_first(), v, d));
            }
        }
    }
}

/// Appending an entry under fresh keys records it for those keys and
/// disturbs no other pair.
proof fn lemma_spec_entry_push(s: Seq<UserDeposit>, e: UserDeposit)
    requires
        forall|k: int|
            0 <= k < s.len() ==> !((#[trigger] s[k]).vault == e.vault && s[k].depositor
                == e.depositor),
    ensures
        spec_entry(s.push(e), e.vault, e.depositor) == Some(e),
        forall|v: u64, d: u64|
            !(v == e.vault && d == e.depositor) ==> #[trigger] spec_entry(s.push(e), v, d)
                == spec_entry(s, v, d),
    decreases s.len(),
{
    let t = s.push(e);
    if s.len() == 0 {
        assert(t[0] == e);
        assert(t.drop_first() =~= Seq::<UserDeposit>::empty());
        assert forall|v: u64, d: u64| !(v == e.vault && d == e.depositor) implies #[trigger] spec_entry(
            t,
            v,
            d,
        ) == spec_entry(s, v, d) by {
            assert(spec_entry(t, v, d) == spec_entry(t.drop_first(), v, d));
        }
    } else {
        assert(t[0] == s[0]);
        assert(t.drop_first() =~= s.drop_first().push(e));
        assert forall|k: int|
            0 <= k < s.drop_first().len() implies !((#[trigger] s.drop_first()[k]).vault == e.vault
            && s.drop_first()[k].depositor == e.depositor) by {
            assert(s.drop_first()[k] == s[k + 1]);
        }
        lemma_spec_entry_push(s.drop_first(), e);
        assert(!(s[0].vault == e.vault && s[0].depositor == e.depositor));
        assert forall|v: u64, d: u64| !(v == e.vault && d == e.depositor) implies #[trigger] spec_entry(
            t,
            v,
            d,
        ) == spec_entry(s, v, d) by {
            if !(s[0].vault == v && s[0].depositor == d) {
                assert(spec_entry(t, v, d) == spec_entry(t.drop_first(), v, d));
                assert(spec_entry(s, v, d) == spec_entry(s.drop_first(), v, d));
            }
        }
    }
}

/// Replacing an entry with a well-formed one under the same keys keeps the
/// ledger well-formed.
proof fn lemma_ledger_update_preserves(s: Seq<UserDeposit>, i: int, e: UserDeposit)
    requires
        entries_wf(s),
        unique_keys(s),
        0 <= i < s.len(),
        e.wf(),
        e.vault == s[i].vault,
        e.depositor == s[i].depositor,
    ensures
        entries_wf(s.update(i, e)),
        unique_keys(s.update(i, e)),
{
    let t = s.update(i, e);
    assert forall|a: int| 0 <= a < t.len() implies (#[trigger] t[a]).wf() by {
        if a != i {
            assert(t[a] == s[a]);
        }
    }
    assert forall|a: int, b: int|
        #![trigger t[a], t[b]]
        0 <= a < b < t.len() implies !(t[a].vault == t[b].vault && t[a].depositor
        == t[b].depositor) by {
        assert(s[a].vault == t[a].vault && s[a].depositor == t[a].depositor);
        assert(s[b].vault == t[b].vault && s[b].depositor == t[b].depositor);
    }
}

/// Appending a well-formed entry under fresh keys keeps the ledger
/// well-formed.
proof fn lemma_ledger_push_preserves(s: Seq<UserDeposit>, e: UserDeposit)
    requires
        entries_wf(s),
        unique_keys(s),
        e.wf(),
        forall|k: int|
            0 <= k < s.len() ==> !((#[trigger] s[k]).vault == e.vault && s[k].depositor
                == e.depositor),
    ensures
        entries_wf(s.push(e)),
        unique_keys(s.push(e)),
{
    let t = s.push(e);
    assert forall|a: int| 0 <= a < t.len() implies (#[trigger] t[a]).wf() by {
        if a < s.len() {
            assert(t[a] == s[a]);
        } else {
            assert(t[a] == e);
        }
    }
    assert forall|a: int, b: int|
        #![trigger t[a], t[b]]
        0 <= a < b < t.len() implies !(t[a].vault == t[b].vault && t[a].depositor
        == t[b].depositor) by {
        if b < s.len() {
            assert(t[a] == s[a] && t[b] == s[b]);
        } else {
            assert(t[a] == s[a] && t[b] == e);
        }
    }
}

/// The ledger: every depositor's entry for every vault, keyed by the
/// (vault, depositor) pair.
pub struct DepositLedger {
    pub entries: Vec<UserDeposit>,
}

impl DepositLedger {
    /// Entries are well-formed and no pair owns two of them.
    pub open spec fn wf(self) -> bool {
        &&& entries_wf(self.entries@)
        &&& unique_keys(self.entries@)
    }

    /// The entry recorded for `(v, d)`, if any.
    pub open spec fn spec_entry_of(self, v: u64, d: u64) -> Option<UserDeposit> {
        spec_entry(self.entries@, v, d)
    }

    /// The balance recorded for `(v, d)`: zero when no entry exists.
    pub open spec fn spec_balance_of(self, v: u64, d: u64) -> u64 {
        spec_balance(self.entries@, v, d)
    }

    /// An empty ledger, before any deposit.
    pub fn new() -> (r: DepositLedger)
        ensures
            r.entries@.len() == 0,
            r.wf(),
    {
        DepositLedger { entries: Vec::new() }
    }

    /// Locates the entry of `(v, d)` by a first-match scan.
    fn find_entry(&self, v: u64, d: u64) -> (r: Option<usize>)
        ensures
            match r {
                Some(i) => {
                    &&& i < self.entries@.len()
                    &&& self.entries@[i as int].vault == v
                    &&& self.entries@[i as int].depositor == d
                    &&& forall|k: int|
                        0 <= k < i ==> !((#[trigger] self.entries@[k]).vault == v
                            && self.entries@[k].depositor == d)
                    &&& self.spec_entry_of(v, d) == Some(self.entries@[i as int])
                },
                None => {
                    &&& forall|k: int|
                        0 <= k < self.entries@.len() ==> !((#[trigger] self.entries@[k]).vault == v
                            && self.entries@[k].depositor == d)
                    &&& self.spec_entry_of(v, d) == None::<UserDeposit>
                },
            },
    {
        let mut i: usize = 0;
        while i < self.entries.len()
            invariant
                i <= self.entries@.len(),
                forall|k: int|
                    0 <= k < i ==> !((#[trigger] self.entries@[k]).vault == v
                        && self.entries@[k].depositor == d),
            decreases self.entries.len() - i,
        {
            if self.entries[i].vault == v && self.entries[i].depositor == d {
                proof {
                    lemma_spec_entry_found(self.entries@, v, d, i as int);
                }
                return Some(i);
            }
            i = i + 1;
        }
        proof {
            lemma_spec_entry_none(self.entries@, v, d);
        }
        None
    }

    /// The balance held by `depositor` in the vault `vault_id`.
    pub fn balance_of(&self, vault_id: u64, depositor: u64) -> (r: u64)
        ensures
            r == self.spec_balance_of(vault_id, depositor),
    {
        match self.find_entry(vault_id, depositor) {
            Some(i) => self.entries[i].amount,
            None => 0,
        }
    }

    /// Commits a deposit of `amount` by `depositor` into `vault`: the entry
    /// is created on the first deposit, and credited afterwards. The host
    /// must have moved the real funds into custody first; it calls this only
    /// after the transfer reports success, so the record and the transfer
    /// succeed or fail together.
    ///
    /// Fails `VaultFrozen` or `VaultClosed` by the vault's flags,
    /// `InvalidAmount` on a zero amount, and `DepositLimitExceeded` when the
    /// cumulative balance would pass the vault's cap (or the largest
    /// representable balance). Errors leave the ledger unchanged.
    pub fn deposit(&mut self, vault: &Vault, depositor: u64, amount: u64) -> (r: Result<
        (),
        MurkError,
    >)
        requires
            old(self).wf(),
        ensures
            final(self).wf(),
            vault.is_frozen ==> r == Err::<(), MurkError>(MurkError::VaultFrozen) && *final(self)
                == *old(self),
            !vault.is_frozen && vault.is_closed ==> r == Err::<(), MurkError>(
                MurkError::VaultClosed,
            ) && *final(self) == *old(self),
            !vault.is_frozen && !vault.is_closed && amount == 0 ==> r == Err::<(), MurkError>(
                MurkError::InvalidAmount,
            ) && *final(self) == *old(self),
            !vault.is_frozen && !vault.is_closed && amount > 0 && old(self).spec_balance_of(
                vault.id,
                depositor,
            ) + amount > spec_cap(*vault) ==> r == Err::<(), MurkError>(
                MurkError::DepositLimitExceeded,
            ) && *final(self) == *old(self),
            !vault.is_frozen && !vault.is_closed && amount > 0 && old(self).spec_balance_of(
                vault.id,
                depositor,
            ) + amount <= spec_cap(*vault) ==> {
                &&& r == Ok::<(), MurkError>(())
                &&& final(self).spec_balance_of(vault.id, depositor) == old(self).spec_balance_of(
                    vault.id,
                    depositor,
                ) + amount
                &&& (old(self).spec_entry_of(vault.id, depositor) matches Some(e) ==> final(self).spec_entry_of(vault.id, depositor) == Some(
                    (UserDeposit { amount: (e.amount + amount) as u64, ..e }),
                ))
                &&& (old(self).spec_entry_of(vault.id, depositor) is None ==> (final(self).spec_entry_of(vault.id, depositor) matches Some(n) && n.vault == vault.id
                    && n.depositor == depositor && n.amount == amount && live_total(n.withdrawals@)
                    == 0 && n.withdrawals@.len() == MAX_WITHDRAWAL_REQUESTS && (forall|k: int|
                    0 <= k < n.withdrawals@.len() ==> #[trigger] n.withdrawals@[k]
                        == spec_empty_request())))
                &&& forall|v: u64, d: u64|
                    !(v == vault.id && d == depositor) ==> #[trigger] final(self).spec_entry_of(
                        v,
                        d,
                    ) == old(self).spec_entry_of(v, d)
            },
    {
        if vault.is_frozen {
            return Err(MurkError::VaultFrozen);
        }
        if vault.is_closed {
            return Err(MurkError::VaultClosed);
        }
        if amount == 0 {
            return Err(MurkError::InvalidAmount);
        }
        let cap = match vault.max_deposit {
            Some(m) => m,
            None => u64::MAX,
        };
        match self.find_entry(vault.id, depositor) {
            Some(i) => {
                let cur = self.entries[i].amount;
                if amount > cap || cur > cap - amount {
                    return Err(MurkError::DepositLimitExceeded);
                }
                let ghost s0 = self.entries@;
                proof {
                    assert(s0[i as int].wf());
                }
                let e = &mut self.entries[i];
                e.add_amount(amount);
                proof {
                    let en = self.entries@[i as int];
                    lemma_spec_entry_update(s0, i as int, en);
                    lemma_ledger_update_preserves(s0, i as int, en);
                }
                Ok(())
            },
            None => {
                if amount > cap {
                    return Err(MurkError::DepositLimitExceeded);
                }
                let entry = UserDeposit::new(vault.id, depositor, amount);
                let ghost s0 = self.entries@;
                let ghost ge = entry;
                self.entries.push(entry);
                proof {
                    lemma_spec_entry_push(s0, ge);
                    lemma_ledger_push_preserves(s0, ge);
                }
                Ok(())
            },
        }
    }

    /// Reserves withdrawal intent for `caller` against `vault`: the first
    /// free slot of the caller's entry becomes `Initiated`. No funds move.
    ///
    /// Fails `VaultFrozen` or `VaultClosed` by the vault's flags and
    /// `DepositNotFound` when `caller` holds no entry for this vault; the
    /// entry itself refuses over-commitment (`InsufficientBalance`) and
    /// exhaustion (`WithdrawalRequestLimitReached`). Errors leave the ledger
    /// unchanged, and no balance changes on any outcome.
    pub fn initiate_withdrawal(&mut self, vault: &Vault, caller: u64, amount: u64, now: u64) -> (r:
        Result<(), MurkError>)
        requires
            old(self).wf(),
        ensures
            final(self).wf(),
            forall|v: u64, d: u64|
                !(v == vault.id && d == caller) ==> #[trigger] final(self).spec_entry_of(v, d)
                    == old(self).spec_entry_of(v, d),
            forall|v: u64, d: u64| #[trigger]
                final(self).spec_balance_of(v, d) == old(self).spec_balance_of(v, d),
            vault.is_frozen ==> r == Err::<(), MurkError>(MurkError::VaultFrozen) && final(self).entries@ == old(self).entries@,
            !vault.is_frozen && vault.is_closed ==> r == Err::<(), MurkError>(
                MurkError::VaultClosed,
            ) && final(self).entries@ == old(self).entries@,
            !vault.is_frozen && !vault.is_closed && old(self).spec_entry_of(vault.id, caller)
                is None ==> r == Err::<(), MurkError>(MurkError::DepositNotFound) && final(self).entries@ == old(self).entries@,
            !vault.is_frozen && !vault.is_closed ==> (old(self).spec_entry_of(vault.id, caller)
                matches Some(e) ==> {
                &&& (live_total(e.withdrawals@) + amount > e.amount ==> r == Err::<(), MurkError>(
                    MurkError::InsufficientBalance,
                ) && final(self).entries@ == old(self).entries@)
                &&& (live_total(e.withdrawals@) + amount <= e.amount && !has_free_slot(
                    e.withdrawals@,
                ) ==> r == Err::<(), MurkError>(MurkError::WithdrawalRequestLimitReached) && final(self).entries@ == old(self).entries@)
                &&& (live_total(e.withdrawals@) + amount <= e.amount && has_free_slot(
                    e.withdrawals@,
                ) ==> r == Ok::<(), MurkError>(()) && (final(self).spec_entry_of(vault.id, caller)
                    matches Some(e2) && e2.vault == e.vault && e2.depositor == e.depositor
                    && e2.amount == e.amount && live_total(e2.withdrawals@) == live_total(
                    e.withdrawals@,
                ) + amount && exists|i: int|
                    #[trigger] is_first_free(e.withdrawals@, i) && e2.withdrawals@
                        == e.withdrawals@.update(
                        i,
                        (WithdrawalRequest {
                            amount,
                            initiated_timestamp: now,
                            status: WithdrawalStatus::Initiated,
                        }),
                    )))
            }),
    {
        if vault.is_frozen {
            return Err(MurkError::VaultFrozen);
        }
        if vault.is_closed {
            return Err(MurkError::VaultClosed);
        }
        match self.find_entry(vault.id, caller) {
            None => Err(MurkError::DepositNotFound),
            Some(i) => {
                let ghost s0 = self.entries@;
                proof {
                    assert(s0[i as int].wf());
                }
                let e = &mut self.entries[i];
                let res = e.initiate_withdrawal(caller, amount, now);
                proof {
                    let en = self.entries@[i as int];
                    if en == s0[i as int] {
                        assert(self.entries@ =~= s0);
                    }
                    lemma_spec_entry_update(s0, i as int, en);
                    lemma_ledger_update_preserves(s0, i as int, en);
                }
                res
            },
        }
    }

    /// Moves the request in `slot` of the `(vault_id, depositor)` entry one
    /// step along its lifecycle, as [`UserDeposit::advance_withdrawal`] does.
    ///
    /// Fails `DepositNotFound` when no such entry exists. Errors leave the
    /// ledger unchanged, and no balance changes on any outcome.
    pub fn advance_withdrawal(
        &mut self,
        vault_id: u64,
        depositor: u64,
        slot: usize,
        now: u64,
    ) -> (r: Result<(), MurkError>)
        requires
            old(self).wf(),
            slot < MAX_WITHDRAWAL_REQUESTS,
        ensures
            final(self).wf(),
            forall|v: u64, d: u64|
                !(v == vault_id && d == depositor) ==> #[trigger] final(self).spec_entry_of(v, d)
                    == old(self).spec_entry_of(v, d),
            forall|v: u64, d: u64| #[trigger]
                final(self).spec_balance_of(v, d) == old(self).spec_balance_of(v, d),
            old(self).spec_entry_of(vault_id, depositor) is None ==> r == Err::<(), MurkError>(
                MurkError::DepositNotFound,
            ) && final(self).entries@ == old(self).entries@,
            old(self).spec_entry_of(vault_id, depositor) matches Some(e) ==> {
                &&& (e.withdrawals@[slot as int].status == WithdrawalStatus::Initiated ==> r
                    == Ok::<(), MurkError>(()) && (final(self).spec_entry_of(vault_id, depositor)
                    matches Some(e2) && e2.vault == e.vault && e2.depositor == e.depositor
                    && e2.amount == e.amount && e2.withdrawals@ == e.withdrawals@.update(
                    slot as int,
                    (WithdrawalRequest {
                        status: WithdrawalStatus::Cooldown,
                        ..e.withdrawals@[slot as int]
                    }),
                )))
                &&& (e.withdrawals@[slot as int].status == WithdrawalStatus::Cooldown && now
                    - e.withdrawals@[slot as int].initiated_timestamp >= WITHDRAWAL_COOLDOWN ==> r
                    == Ok::<(), MurkError>(()) && (final(self).spec_entry_of(vault_id, depositor)
                    matches Some(e2) && e2.vault == e.vault && e2.depositor == e.depositor
                    && e2.amount == e.amount && e2.withdrawals@ == e.withdrawals@.update(
                    slot as int,
                    (WithdrawalRequest {
                        status: WithdrawalStatus::Ready,
                        ..e.withdrawals@[slot as int]
                    }),
                )))
                &&& (e.withdrawals@[slot as int].status == WithdrawalStatus::Cooldown && now
                    - e.withdrawals@[slot as int].initiated_timestamp < WITHDRAWAL_COOLDOWN ==> r
                    == Ok::<(), MurkError>(()) && final(self).entries@ == old(self).entries@)
                &&& (e.withdrawals@[slot as int].status != WithdrawalStatus::Initiated
                    && e.withdrawals@[slot as int].status != WithdrawalStatus::Cooldown ==> r
                    == Err::<(), MurkError>(MurkError::InvalidWithdrawalStatus) && final(self).entries@ == old(self).entries@)
            },
    {
        match self.find_entry(vault_id, depositor) {
            None => Err(MurkError::DepositNotFound),
            Some(i) => {
                let ghost s0 = self.entries@;
                proof {
                    assert(s0[i as int].wf());
                }
                let e = &mut self.entries[i];
                let res = e.advance_withdrawal(slot, now);
                proof {
                    let en = self.entries@[i as int];
                    if en == s0[i as int] {
                        assert(self.entries@ =~= s0);
                    }
                    lemma_spec_entry_update(s0, i as int, en);
                    lemma_ledger_update_preserves(s0, i as int, en);
                }
                res
            },
        }
    }

    /// Cancels the live request in `slot` of the caller's entry for
    /// `vault_id`: its amount stops counting against the balance and no
    /// funds move, as [`UserDeposit::cancel_withdrawal`] does.
    ///
    /// Fails `DepositNotFound` when no such entry exists. Errors leave the
    /// ledger unchanged, and no balance changes on any outcome.
    pub fn cancel_withdrawal(&mut self, vault_id: u64, caller: u64, slot: usize) -> (r: Result<
        (),
        MurkError,
    >)
        requires
            old(self).wf(),
            slot < MAX_WITHDRAWAL_REQUESTS,
        ensures
            final(self).wf(),
            forall|v: u64, d: u64|
                !(v == vault_id && d == caller) ==> #[trigger] final(self).spec_entry_of(v, d)
                    == old(self).spec_entry_of(v, d),
            forall|v: u64, d: u64| #[trigger]
                final(self).spec_balance_of(v, d) == old(self).spec_balance_of(v, d),
            old(self).spec_entry_of(vault_id, caller) is None ==> r == Err::<(), MurkError>(
                MurkError::DepositNotFound,
            ) && final(self).entries@ == old(self).entries@,
            old(self).spec_entry_of(vault_id, caller) matches Some(e) ==> {
                &&& (!is_live(e.withdrawals@[slot as int]) ==> r == Err::<(), MurkError>(
                    MurkError::InvalidWithdrawalStatus,
                ) && final(self).entries@ == old(self).entries@)
                &&& (is_live(e.withdrawals@[slot as int]) ==> r == Ok::<(), MurkError>(()) && (
                final(self).spec_entry_of(vault_id, caller) matches Some(e2) && e2.vault == e.vault
                    && e2.depositor == e.depositor && e2.amount == e.amount && e2.withdrawals@
                    == e.withdrawals@.update(
                    slot as int,
                    (WithdrawalRequest {
                        status: WithdrawalStatus::Cancelled,
                        ..e.withdrawals@[slot as int]
                    }),
                ) && live_total(e2.withdrawals@) == live_total(e.withdrawals@)
                    - e.withdrawals@[slot as int].amount))
            },
    {
        match self.find_entry(vault_id, caller) {
            None => Err(MurkError::DepositNotFound),
            Some(i) => {
                let ghost s0 = self.entries@;
                proof {
                    assert(s0[i as int].wf());
                }
                let e = &mut self.entries[i];
                let res = e.cancel_withdrawal(caller, slot);
                proof {
                    let en = self.entries@[i as int];
                    if en == s0[i as int] {
                        assert(self.entries@ =~= s0);
                    }
                    lemma_spec_entry_update(s0, i as int, en);
                    lemma_ledger_update_preserves(s0, i as int, en);
                }
                res
            },
        }
    }
}

/// Commits a deposit and reports the event record for the host to deliver.
/// The validation and the ledger mutation are [`DepositLedger::deposit`]'s;
/// the host performs the asset transfer into custody before calling this.
pub fn handle_deposit(vault: &Vault, ledger: &mut DepositLedger, depositor: u64, amount: u64) -> (r:
    Result<VaultDeposit, MurkError>)
    requires
        old(ledger).wf(),
    ensures
        final(ledger).wf(),
        vault.is_frozen ==> r == Err::<VaultDeposit, MurkError>(MurkError::VaultFrozen) && *final(ledger) == *old(ledger),
        !vault.is_frozen && vault.is_closed ==> r == Err::<VaultDeposit, MurkError>(
            MurkError::VaultClosed,
        ) && *final(ledger) == *old(ledger),
        !vault.is_frozen && !vault.is_closed && amount == 0 ==> r == Err::<
            VaultDeposit,
            MurkError,
        >(MurkError::InvalidAmount) && *final(ledger) == *old(ledger),
        !vault.is_frozen && !vault.is_closed && amount > 0 && old(ledger).spec_balance_of(
            vault.id,
            depositor,
        ) + amount > spec_cap(*vault) ==> r == Err::<VaultDeposit, MurkError>(
            MurkError::DepositLimitExceeded,
        ) && *final(ledger) == *old(ledger),
        !vault.is_frozen && !vault.is_closed && amount > 0 && old(ledger).spec_balance_of(
            vault.id,
            depositor,
        ) + amount <= spec_cap(*vault) ==> {
            &&& r == Ok::<VaultDeposit, MurkError>(
                (VaultDeposit { amount, depositor, vault_id: vault.id }),
            )
            &&& final(ledger).spec_balance_of(vault.id, depositor) == old(ledger).spec_balance_of(
                vault.id,
                depositor,
            ) + amount
            &&& forall|v: u64, d: u64|
                !(v == vault.id && d == depositor) ==> #[trigger] final(ledger).spec_entry_of(v, d)
                    == old(ledger).spec_entry_of(v, d)
        },
{
    match ledger.deposit(vault, depositor, amount) {
        Ok(()) => Ok(VaultDeposit { amount, depositor, vault_id: vault.id }),
        Err(e) => Err(e),
    }
}

/// Completes a `Ready` withdrawal request: debits the caller's balance by
/// the request's amount and reports the event record for the host to
/// deliver. The host moves the funds out of custody (and burns the claim
/// receipt) before calling this; on any error no state changes, so the
/// record and the transfer succeed or fail together.
///
/// Fails `VaultFrozen` or `VaultClosed` by the vault's flags,
/// `DepositNotFound` when `caller` holds no entry for this vault, and
/// `InvalidWithdrawalStatus` unless the slot is `Ready`.
pub fn handle_withdrawal(vault: &Vault, ledger: &mut DepositLedger, caller: u64, slot: usize) -> (r:
    Result<VaultWithdrawal, MurkError>)
    requires
        old(ledger).wf(),
        slot < MAX_WITHDRAWAL_REQUESTS,
    ensures
        final(ledger).wf(),
        forall|v: u64, d: u64|
            !(v == vault.id && d == caller) ==> #[trigger] final(ledger).spec_entry_of(v, d) == old(ledger).spec_entry_of(v, d),
        vault.is_frozen ==> r == Err::<VaultWithdrawal, MurkError>(MurkError::VaultFrozen)
            && final(ledger).entries@ == old(ledger).entries@,
        !vault.is_frozen && vault.is_closed ==> r == Err::<VaultWithdrawal, MurkError>(
            MurkError::VaultClosed,
        ) && final(ledger).entries@ == old(ledger).entries@,
        !vault.is_frozen && !vault.is_closed && old(ledger).spec_entry_of(vault.id, caller)
            is None ==> r == Err::<VaultWithdrawal, MurkError>(MurkError::DepositNotFound)
            && final(ledger).entries@ == old(ledger).entries@,
        !vault.is_frozen && !vault.is_closed ==> (old(ledger).spec_entry_of(vault.id, caller)
            matches Some(e) ==> {
            &&& (e.withdrawals@[slot as int].status != WithdrawalStatus::Ready ==> r == Err::<
                VaultWithdrawal,
                MurkError,
            >(MurkError::InvalidWithdrawalStatus) && final(ledger).entries@ == old(ledger).entries@)
            &&& (e.withdrawals@[slot as int].status == WithdrawalStatus::Ready ==> {
                &&& r == Ok::<VaultWithdrawal, MurkError>(
                    (VaultWithdrawal {
                        amount: e.withdrawals@[slot as int].amount,
                        vault_id: vault.id,
                        withdrawer: caller,
                    }),
                )
                &&& final(ledger).spec_balance_of(vault.id, caller) == e.amount
                    - e.withdrawals@[slot as int].amount
                &&& (final(ledger).spec_entry_of(vault.id, caller) matches Some(e2) && e2.vault
                    == e.vault && e2.depositor == e.depositor && e2.amount == e.amount
                    - e.withdrawals@[slot as int].amount && e2.withdrawals@
                    == e.withdrawals@.update(
                    slot as int,
                    (WithdrawalRequest {
                        status: WithdrawalStatus::Completed,
                        ..e.withdrawals@[slot as int]
                    }),
                ))
            })
        }),
{
    if vault.is_frozen {
        return Err(MurkError::VaultFrozen);
    }
    if vault.is_closed {
        return Err(MurkError::VaultClosed);
    }
    match ledger.find_entry(vault.id, caller) {
        None => Err(MurkError::DepositNotFound),
        Some(i) => {
            let ghost s0 = ledger.entries@;
            proof {
                assert(s0[i as int].wf());
            }
            let e = &mut ledger.entries[i];
            let res = e.complete_withdrawal(caller, slot);
            proof {
                let en = ledger.entries@[i as int];
                if en == s0[i as int] {
                    assert(ledger.entries@ =~= s0);
                }
                lemma_spec_entry_update(s0, i as int, en);
                lemma_ledger_update_preserves(s0, i as int, en);
            }
            match res {
                Ok(w) => Ok(VaultWithdrawal { amount: w, vault_id: vault.id, withdrawer: caller }),
                Err(err) => Err(err),
            }
        },
    }
}

} // verus!
