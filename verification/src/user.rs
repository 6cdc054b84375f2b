//! A depositor's ledger entry: its claim balance and its fixed-capacity
//! withdrawal-request queue.
//!
//! Each request slot walks `Free -> Initiated -> Cooldown -> Ready ->
//! Completed`, with `Cancelled` as the alternate terminal from any live
//! status. Completed and cancelled requests keep their amount for audit;
//! [`UserDeposit::remove_withdrawal_request`] frees a slot for reuse. The sum
//! of all live request amounts never exceeds the balance, so pending requests
//! can never over-commit it.

use vstd::prelude::*;

use crate::error::MurkError;

verus! {

/// Fixed number of withdrawal-request slots per deposit entry. The bound is a
/// deliberate storage-cost guard: exhaustion is a reported error.
pub const MAX_WITHDRAWAL_REQUESTS: usize = 10;

/// How long a request sits in `Cooldown` before it may become `Ready`, in the
/// host clock's seconds. The lifecycle leaves the duration to the library;
/// this policy constant fixes it at one day.
pub const WITHDRAWAL_COOLDOWN: u64 = 86400;

/// The lifecycle status of one withdrawal-request slot.
#[derive(Clone, Copy, Debug, PartialEq, Eq, Structural)]
pub enum WithdrawalStatus {
    Free,
    Initiated,
    Cooldown,
    Ready,
    Completed,
    Cancelled,
}

/// One withdrawal-request slot.
#[derive(Clone, Copy, Debug, PartialEq, Eq, Structural)]
pub struct WithdrawalRequest {
    pub amount: u64,
    pub initiated_timestamp: u64,
    pub status: WithdrawalStatus,
}

/// The value of a free slot: no meaningful amount or timestamp.
pub open spec fn spec_empty_request() -> WithdrawalRequest {
    WithdrawalRequest { amount: 0, initiated_timestamp: 0, status: WithdrawalStatus::Free }
}

/// A request is live while it still commits balance: initiated, cooling
/// down, or ready. Free and terminal slots are not live.
pub open spec fn is_live(r: WithdrawalRequest) -> bool {
    ||| r.status == WithdrawalStatus::Initiated
    ||| r.status == WithdrawalStatus::Cooldown
    ||| r.status == WithdrawalStatus::Ready
}

/// The contribution of one slot to the committed total.
pub open spec fn live_amount_of(r: WithdrawalRequest) -> int {
    if is_live(r) {
        r.amount as int
    } else {
        0
    }
}

/// Whether some slot in the queue is free.
pub open spec fn has_free_slot(s: Seq<WithdrawalRequest>) -> bool {
    exists|k: int|
        0 <= k < s.len() && (#[trigger] s[k]).status == WithdrawalStatus::Free
}

/// Whether `i` is the first free slot of the queue: the slot an initiation
/// picks by its first-match scan.
pub open spec fn is_first_free(s: Seq<WithdrawalRequest>, i: int) -> bool {
    &&& 0 <= i < s.len()
    &&& s[i].status == WithdrawalStatus::Free
    &&& forall|k: int| 0 <= k < i ==> (#[trigger] s[k]).status != WithdrawalStatus::Free
}

/// The sum of the amounts of all live requests in the queue.
pub open spec fn live_total(s: Seq<WithdrawalRequest>) -> int
    decreases s.len(),
{
    if s.len() <= 0 {
        0
    } else {
        live_amount_of(s[0]) + live_total(s.drop_first())
    }
}

pub proof fn lemma_live_total_nonneg(s: Seq<WithdrawalRequest>)
    ensures
        live_total(s) >= 0,
    decreases s.len(),
{
    if s.len() > 0 {
        lemma_live_total_nonneg(s.drop_first());
    }
}

/// The live total splits at any cut point.
pub proof fn lemma_live_total_split(s: Seq<WithdrawalRequest>, i: int)
    requires
        0 <= i <= s.len(),
    ensures
        live_total(s) == live_total(s.take(i)) + live_total(s.skip(i)),
    decreases i,
{
    if i == 0 {
        assert(s.take(0) =~= Seq::<WithdrawalRequest>::empty());
        assert(s.skip(0) =~= s);
    } else {
        assert(s.take(i)[0] == s[0]);
        assert(s.take(i).drop_first() =~= s.drop_first().take(i - 1));
        assert(s.skip(i) =~= s.drop_first().skip(i - 1));
        lemma_live_total_split(s.drop_first(), i - 1);
    }
}

/// Replacing one slot moves the live total by the difference of the two
/// slots' contributions.
pub proof fn lemma_live_total_update(s: Seq<WithdrawalRequest>, i: int, r: WithdrawalRequest)
    requires
        0 <= i < s.len(),
    ensures
        live_total(s.update(i, r)) == live_total(s) - live_amount_of(s[i]) + live_amount_of(r),
    decreases s.len(),
{
    if i == 0 {
        assert(s.update(0, r)[0] == r);
        assert(s.update(0, r).drop_first() =~= s.drop_first());
    } else {
        assert(s.update(i, r)[0] == s[0]);
        assert(s.update(i, r).drop_first() =~= s.drop_first().update(i - 1, r));
        lemma_live_total_update(s.drop_first(), i - 1, r);
    }
}

/// One more slot extends a prefix's live total by that slot's contribution.
pub proof fn lemma_live_total_take_step(s: Seq<WithdrawalRequest>, i: int)
    requires
        0 <= i < s.len(),
    ensures
        live_total(s.take(i + 1)) == live_total(s.take(i)) + live_amount_of(s[i]),
{
    lemma_live_total_split(s, i);
    lemma_live_total_split(s, i + 1);
    assert(s.skip(i)[0] == s[i]);
    assert(s.skip(i).drop_first() =~= s.skip(i + 1));
}

/// A live slot's amount never exceeds the queue's live total.
pub proof fn lemma_live_total_slot_bound(s: Seq<WithdrawalRequest>, i: int)
    requires
        0 <= i < s.len(),
        is_live(s[i]),
    ensures
        s[i].amount as int <= live_total(s),
{
    lemma_live_total_split(s, i);
    lemma_live_total_nonneg(s.take(i));
    assert(s.skip(i)[0] == s[i]);
    assert(s.skip(i).drop_first() =~= s.skip(i + 1));
    lemma_live_total_nonneg(s.skip(i + 1));
}

/// A queue without a live slot commits nothing.
pub proof fn lemma_live_total_all_free(s: Seq<WithdrawalRequest>)
    requires
        forall|i: int| 0 <= i < s.len() ==> !is_live(#[trigger] s[i]),
    ensures
        live_total(s) == 0,
    decreases s.len(),
{
    if s.len() > 0 {
        assert(!is_live(s[0]));
        assert forall|j: int| 0 <= j < s.drop_first().len() implies !is_live(
            #[trigger] s.drop_first()[j],
        ) by {
            assert(s.drop_first()[j] == s[j + 1]);
        }
        lemma_live_total_all_free(s.drop_first());
    }
}

/// One depositor's record for one vault: the cumulative claim balance and the
/// queue of withdrawal requests against it.
pub struct UserDeposit {
    pub vault: u64,
    pub depositor: u64,
    pub amount: u64,
    pub withdrawals: Vec<WithdrawalRequest>,
}

impl UserDeposit {
    /// The queue has exactly its fixed capacity, free slots carry nothing,
    /// and the live requests together never commit more than the balance.
    pub open spec fn wf(self) -> bool {
        &&& self.withdrawals@.len() == MAX_WITHDRAWAL_REQUESTS
        &&& live_total(self.withdrawals@) <= self.amount
        &&& forall|i: int|
            0 <= i < self.withdrawals@.len() && (#[trigger] self.withdrawals@[i]).status
                == WithdrawalStatus::Free ==> self.withdrawals@[i] == spec_empty_request()
    }

    /// A fresh entry, created on a depositor's first deposit: the opening
    /// balance and an all-free queue.
    pub fn new(vault: u64, depositor: u64, amount: u64) -> (r: UserDeposit)
        ensures
            r.vault == vault,
            r.depositor == depositor,
            r.amount == amount,
            r.withdrawals@.len() == MAX_WITHDRAWAL_REQUESTS,
            forall|i: int|
                0 <= i < MAX_WITHDRAWAL_REQUESTS ==> #[trigger] r.withdrawals@[i]
                    == spec_empty_request(),
            live_total(r.withdrawals@) == 0,
            r.wf(),
    {
        let mut withdrawals: Vec<WithdrawalRequest> = Vec::new();
        let mut i: usize = 0;
        while i < MAX_WITHDRAWAL_REQUESTS
            invariant
                i <= MAX_WITHDRAWAL_REQUESTS,
                withdrawals@.len() == i,
                forall|k: int| 0 <= k < i ==> #[trigger] withdrawals@[k] == spec_empty_request(),
            decreases MAX_WITHDRAWAL_REQUESTS - i,
        {
            withdrawals.push(
                WithdrawalRequest {
                    amount: 0,
                    initiated_timestamp: 0,
                    status: WithdrawalStatus::Free,
                },
            );
            i = i + 1;
        }
        proof {
            assert forall|k: int| 0 <= k < withdrawals@.len() implies !is_live(
                #[trigger] withdrawals@[k],
            ) by {
                assert(withdrawals@[k] == spec_empty_request());
            }
            lemma_live_total_all_free(withdrawals@);
        }
        UserDeposit { vault, depositor, amount, withdrawals }
    }

    /// Credits a validated deposit to the balance. The queue is untouched, so
    /// the committed total keeps its headroom.
    pub fn add_amount(&mut self, amount: u64)
        requires
            old(self).wf(),
            old(self).amount + amount <= u64::MAX,
        ensures
            *final(self) == (UserDeposit {
                amount: (old(self).amount + amount) as u64,
                ..*old(self)
            }),
            final(self).wf(),
    {
        self.amount = self.amount + amount;
    }

    /// The sum of all live request amounts: the part of the balance already
    /// committed to pending withdrawals.
    pub fn live_amount(&self) -> (r: u64)
        requires
            self.wf(),
        ensures
            r as int == live_total(self.withdrawals@),
    {
        let ghost s = self.withdrawals@;
        let mut total: u64 = 0;
        let mut i: usize = 0;
        while i < self.withdrawals.len()
            invariant
                self.wf(),
                s == self.withdrawals@,
                i <= self.withdrawals@.len(),
                total as int == live_total(s.take(i as int)),
            decreases self.withdrawals.len() - i,
        {
            let w = self.withdrawals[i];
            proof {
                lemma_live_total_take_step(s, i as int);
                lemma_live_total_split(s, i as int + 1);
                lemma_live_total_nonneg(s.skip(i as int + 1));
            }
            if w.status == WithdrawalStatus::Initiated || w.status == WithdrawalStatus::Cooldown
                || w.status == WithdrawalStatus::Ready {
                total = total + w.amount;
            }
            i = i + 1;
        }
        proof {
            assert(s.take(self.withdrawals@.len() as int) =~= s);
        }
        total
    }

    /// Reserves withdrawal intent in the first free slot: the slot becomes
    /// `Initiated` with the given amount and timestamp. No funds move yet.
    ///
    /// Fails `OwnershipMismatch` unless `caller` owns this entry,
    /// `InsufficientBalance` when the amount plus all live requests would
    /// exceed the balance (so pending requests can never over-commit it), and
    /// `WithdrawalRequestLimitReached` when no slot is free. Errors leave the
    /// entry unchanged.
    pub fn initiate_withdrawal(&mut self, caller: u64, amount: u64, now: u64) -> (r: Result<
        (),
        MurkError,
    >)
        requires
            old(self).wf(),
        ensures
            final(self).wf(),
            final(self).vault == old(self).vault,
            final(self).depositor == old(self).depositor,
            final(self).amount == old(self).amount,
            caller != old(self).depositor ==> r == Err::<(), MurkError>(
                MurkError::OwnershipMismatch,
            ) && *final(self) == *old(self),
            caller == old(self).depositor && live_total(old(self).withdrawals@) + amount > old(
                self,
            ).amount ==> r == Err::<(), MurkError>(MurkError::InsufficientBalance) && *final(self)
                == *old(self),
            caller == old(self).depositor && live_total(old(self).withdrawals@) + amount <= old(
                self,
            ).amount && !has_free_slot(old(self).withdrawals@) ==> r == Err::<(), MurkError>(
                MurkError::WithdrawalRequestLimitReached,
            ) && *final(self) == *old(self),
            caller == old(self).depositor && live_total(old(self).withdrawals@) + amount <= old(
                self,
            ).amount && has_free_slot(old(self).withdrawals@) ==> {
                &&& r == Ok::<(), MurkError>(())
                &&& exists|i: int|
                    #[trigger] is_first_free(old(self).withdrawals@, i) && final(self).withdrawals@
                        == old(self).withdrawals@.update(
                        i,
                        (WithdrawalRequest {
                            amount,
                            initiated_timestamp: now,
                            status: WithdrawalStatus::Initiated,
                        }),
                    )
                &&& live_total(final(self).withdrawals@) == live_total(old(self).withdrawals@)
                    + amount
            },
    {
        if caller != self.depositor {
            return Err(MurkError::OwnershipMismatch);
        }
        let reserved = self.live_amount();
        proof {
            lemma_live_total_nonneg(self.withdrawals@);
        }
        if amount > self.amount - reserved {
            return Err(MurkError::InsufficientBalance);
        }
        let mut i: usize = 0;
        while i < self.withdrawals.len()
            invariant
                old(self).wf(),
                *self == *old(self),
                caller == old(self).depositor,
                live_total(old(self).withdrawals@) + amount <= old(self).amount,
                i <= self.withdrawals@.len(),
                forall|k: int|
                    0 <= k < i ==> (#[trigger] self.withdrawals@[k]).status
                        != WithdrawalStatus::Free,
            decreases self.withdrawals.len() - i,
        {
            if self.withdrawals[i].status == WithdrawalStatus::Free {
                let ghost w0 = self.withdrawals@;
                let req = WithdrawalRequest {
                    amount,
                    initiated_timestamp: now,
                    status: WithdrawalStatus::Initiated,
                };
                self.withdrawals[i] = req;
                proof {
                    assert(w0[i as int] == spec_empty_request());
                    assert(is_first_free(old(self).withdrawals@, i as int));
                    lemma_live_total_update(w0, i as int, req);
                }
                return Ok(());
            }
            i = i + 1;
        }
        Err(MurkError::WithdrawalRequestLimitReached)
    }

    /// Moves a request one step along its lifecycle: `Initiated` becomes
    /// `Cooldown` at once; `Cooldown` becomes `Ready` once the cooldown has
    /// elapsed since initiation, and otherwise stays put. Any other status
    /// fails `InvalidWithdrawalStatus` and leaves the entry unchanged.
    pub fn advance_withdrawal(&mut self, slot: usize, now: u64) -> (r: Result<(), MurkError>)
        requires
            old(self).wf(),
            slot < MAX_WITHDRAWAL_REQUESTS,
        ensures
            final(self).wf(),
            final(self).vault == old(self).vault,
            final(self).depositor == old(self).depositor,
            final(self).amount == old(self).amount,
            live_total(final(self).withdrawals@) == live_total(old(self).withdrawals@),
            old(self).withdrawals@[slot as int].status == WithdrawalStatus::Initiated ==> r == Ok::<
                (),
                MurkError,
            >(()) && final(self).withdrawals@ == old(self).withdrawals@.update(
                slot as int,
                (WithdrawalRequest {
                    status: WithdrawalStatus::Cooldown,
                    ..old(self).withdrawals@[slot as int]
                }),
            ),
            old(self).withdrawals@[slot as int].status == WithdrawalStatus::Cooldown && now - old(
                self,
            ).withdrawals@[slot as int].initiated_timestamp >= WITHDRAWAL_COOLDOWN ==> r == Ok::<
                (),
                MurkError,
            >(()) && final(self).withdrawals@ == old(self).withdrawals@.update(
                slot as int,
                (WithdrawalRequest {
                    status: WithdrawalStatus::Ready,
                    ..old(self).withdrawals@[slot as int]
                }),
            ),
            old(self).withdrawals@[slot as int].status == WithdrawalStatus::Cooldown && now - old(
                self,
            ).withdrawals@[slot as int].initiated_timestamp < WITHDRAWAL_COOLDOWN ==> r == Ok::<
                (),
                MurkError,
            >(()) && *final(self) == *old(self),
            old(self).withdrawals@[slot as int].status != WithdrawalStatus::Initiated && old(
                self,
            ).withdrawals@[slot as int].status != WithdrawalStatus::Cooldown ==> r == Err::<
                (),
                MurkError,
            >(MurkError::InvalidWithdrawalStatus) && *final(self) == *old(self),
    {
        let w = self.withdrawals[slot];
        if w.status == WithdrawalStatus::Initiated {
            let ghost w0 = self.withdrawals@;
            let req = WithdrawalRequest { status: WithdrawalStatus::Cooldown, ..w };
            self.withdrawals[slot] = req;
            proof {
                lemma_live_total_update(w0, slot as int, req);
            }
            Ok(())
        } else if w.status == WithdrawalStatus::Cooldown {
            if now >= w.initiated_timestamp && now - w.initiated_timestamp >= WITHDRAWAL_COOLDOWN {
                let ghost w0 = self.withdrawals@;
                let req = WithdrawalRequest { status: WithdrawalStatus::Ready, ..w };
                self.withdrawals[slot] = req;
                proof {
                    lemma_live_total_update(w0, slot as int, req);
                }
                Ok(())
            } else {
                Ok(())
            }
        } else {
            Err(MurkError::InvalidWithdrawalStatus)
        }
    }

    /// Commits a `Ready` withdrawal: debits the balance by the request's
    /// amount and marks the slot `Completed` (kept for audit until the slot
    /// is freed). The host must have moved the real funds first; it calls
    /// this only after the transfer reports success.
    ///
    /// Fails `OwnershipMismatch` unless `caller` owns this entry and
    /// `InvalidWithdrawalStatus` unless the slot is `Ready`. Errors leave the
    /// entry unchanged. On success the debited amount is returned.
    pub fn complete_withdrawal(&mut self, caller: u64, slot: usize) -> (r: Result<u64, MurkError>)
        requires
            old(self).wf(),
            slot < MAX_WITHDRAWAL_REQUESTS,
        ensures
            final(self).wf(),
            final(self).vault == old(self).vault,
            final(self).depositor == old(self).depositor,
            caller != old(self).depositor ==> r == Err::<u64, MurkError>(
                MurkError::OwnershipMismatch,
            ) && *final(self) == *old(self),
            caller == old(self).depositor && old(self).withdrawals@[slot as int].status
                != WithdrawalStatus::Ready ==> r == Err::<u64, MurkError>(
                MurkError::InvalidWithdrawalStatus,
            ) && *final(self) == *old(self),
            caller == old(self).depositor && old(self).withdrawals@[slot as int].status
                == WithdrawalStatus::Ready ==> {
                &&& r == Ok::<u64, MurkError>(old(self).withdrawals@[slot as int].amount)
                &&& final(self).amount == old(self).amount - old(
                    self,
                ).withdrawals@[slot as int].amount
                &&& final(self).withdrawals@ == old(self).withdrawals@.update(
                    slot as int,
                    (WithdrawalRequest {
                        status: WithdrawalStatus::Completed,
                        ..old(self).withdrawals@[slot as int]
                    }),
                )
                &&& live_total(final(self).withdrawals@) == live_total(old(self).withdrawals@)
                    - old(self).withdrawals@[slot as int].amount
            },
    {
        if caller != self.depositor {
            return Err(MurkError::OwnershipMismatch);
        }
        let w = self.withdrawals[slot];
        if w.status != WithdrawalStatus::Ready {
            return Err(MurkError::InvalidWithdrawalStatus);
        }
        proof {
            lemma_live_total_slot_bound(self.withdrawals@, slot as int);
        }
        let ghost w0 = self.withdrawals@;
        self.amount = self.amount - w.amount;
        let req = WithdrawalRequest { status: WithdrawalStatus::Completed, ..w };
        self.withdrawals[slot] = req;
        proof {
            lemma_live_total_update(w0, slot as int, req);
        }
        Ok(w.amount)
    }

    /// Withdraws the intent of a live request: the slot becomes `Cancelled`
    /// (kept for audit until the slot is freed) and its amount stops counting
    /// against the balance. No funds move.
    ///
    /// Fails `OwnershipMismatch` unless `caller` owns this entry and
    /// `InvalidWithdrawalStatus` unless the slot is live. Errors leave the
    /// entry unchanged.
    pub fn cancel_withdrawal(&mut self, caller: u64, slot: usize) -> (r: Result<(), MurkError>)
        requires
            old(self).wf(),
            slot < MAX_WITHDRAWAL_REQUESTS,
        ensures
            final(self).wf(),
            final(self).vault == old(self).vault,
            final(self).depositor == old(self).depositor,
            final(self).amount == old(self).amount,
            caller != old(self).depositor ==> r == Err::<(), MurkError>(
                MurkError::OwnershipMismatch,
            ) && *final(self) == *old(self),
            caller == old(self).depositor && !is_live(old(self).withdrawals@[slot as int]) ==> r
                == Err::<(), MurkError>(MurkError::InvalidWithdrawalStatus) && *final(self) == *old(
                self,
            ),
            caller == old(self).depositor && is_live(old(self).withdrawals@[slot as int]) ==> {
                &&& r == Ok::<(), MurkError>(())
                &&& final(self).withdrawals@ == old(self).withdrawals@.update(
                    slot as int,
                    (WithdrawalRequest {
                        status: WithdrawalStatus::Cancelled,
                        ..old(self).withdrawals@[slot as int]
                    }),
                )
                &&& live_total(final(self).withdrawals@) == live_total(old(self).withdrawals@)
                    - old(self).withdrawals@[slot as int].amount
            },
    {
        if caller != self.depositor {
            return Err(MurkError::OwnershipMismatch);
        }
        let w = self.withdrawals[slot];
        if w.status == WithdrawalStatus::Initiated || w.status == WithdrawalStatus::Cooldown
            || w.status == WithdrawalStatus::Ready {
            let ghost w0 = self.withdrawals@;
            let req = WithdrawalRequest { status: WithdrawalStatus::Cancelled, ..w };
            self.withdrawals[slot] = req;
            proof {
                lemma_live_total_update(w0, slot as int, req);
                lemma_live_total_nonneg(self.withdrawals@);
            }
            Ok(())
        } else {
            Err(MurkError::InvalidWithdrawalStatus)
        }
    }

    /// Frees a slot for reuse: whatever it held, it becomes a free slot with
    /// no amount or timestamp.
    pub fn remove_withdrawal_request(&mut self, index: usize)
        requires
            old(self).wf(),
            index < MAX_WITHDRAWAL_REQUESTS,
        ensures
            final(self).wf(),
            final(self).vault == old(self).vault,
            final(self).depositor == old(self).depositor,
            final(self).amount == old(self).amount,
            final(self).withdrawals@ == old(self).withdrawals@.update(
                index as int,
                spec_empty_request(),
            ),
            live_total(final(self).withdrawals@) == live_total(old(self).withdrawals@)
                - live_amount_of(old(self).withdrawals@[index as int]),
    {
        let ghost w0 = self.withdrawals@;
        let req = WithdrawalRequest {
            amount: 0,
            initiated_timestamp: 0,
            status: WithdrawalStatus::Free,
        };
        self.withdrawals[index] = req;
        proof {
            lemma_live_total_update(w0, index as int, req);
            lemma_live_total_nonneg(self.withdrawals@);
        }
    }
}

} // verus!
