//! Vault lifecycle and the guardian-based authorization model.
//!
//! A vault is `Active` when neither flag is set, `Frozen` while `is_frozen`,
//! and permanently `Closed` once `is_closed`: no operation mutates a closed
//! vault. Every mutation is gated by [`Vault::is_admin`]: the caller must be
//! the creator or a guardian.

use vstd::prelude::*;

use crate::error::MurkError;
use crate::events::{VaultClosed, VaultCreated, VaultFrozen, VaultUnfrozen};
use crate::registry::State;

verus! {

/// The most guardians a vault can ever hold.
pub const MAX_GUARDIANS: usize = 3;

/// A custody container for one asset, with lifecycle flags and an admin set.
///
/// `creator` and `id` never change after creation. `max_deposit`, when set,
/// caps each depositor's cumulative balance. `guardians` is a set: it holds
/// no duplicates and at most [`MAX_GUARDIANS`] members.
pub struct Vault {
    pub creator: u64,
    pub id: u64,
    pub asset: u64,
    pub max_deposit: Option<u64>,
    pub is_frozen: bool,
    pub is_closed: bool,
    pub guardians: Vec<u64>,
}

/// The vault as it stands after a successful `freeze`: only the flag moves.
pub open spec fn spec_frozen(v: Vault) -> Vault {
    Vault { is_frozen: true, ..v }
}

/// The vault as it stands after a successful `unfreeze`: only the flag moves.
pub open spec fn spec_unfrozen(v: Vault) -> Vault {
    Vault { is_frozen: false, ..v }
}

/// The vault as it stands after a successful `close`: only the flag moves.
pub open spec fn spec_closed(v: Vault) -> Vault {
    Vault { is_closed: true, ..v }
}

impl Vault {
    /// Membership in the guardian set.
    pub open spec fn spec_is_guardian(self, pubkey: u64) -> bool {
        self.guardians@.contains(pubkey)
    }

    /// An admin is the creator or any guardian; this predicate gates every
    /// mutating vault operation.
    pub open spec fn spec_is_admin(self, pubkey: u64) -> bool {
        pubkey == self.creator || self.spec_is_guardian(pubkey)
    }

    /// The guardian set as a mathematical set.
    pub open spec fn guardian_set(self) -> Set<u64> {
        self.guardians@.to_set()
    }

    /// The guardian list is a set of at most [`MAX_GUARDIANS`] members.
    pub open spec fn wf(self) -> bool {
        &&& self.guardians@.len() <= MAX_GUARDIANS
        &&& self.guardians@.no_duplicates()
    }

    /// Whether `pubkey` is currently a guardian of this vault.
    pub fn is_guardian(&self, pubkey: u64) -> (r: bool)
        ensures
            r == self.spec_is_guardian(pubkey),
    {
        let mut i: usize = 0;
        while i < self.guardians.len()
            invariant
                i <= self.guardians.len(),
                forall|k: int| 0 <= k < i ==> self.guardians@[k] != pubkey,
            decreases self.guardians.len() - i,
        {
            if self.guardians[i] == pubkey {
                return true;
            }
            i = i + 1;
        }
        false
    }

    /// Whether `pubkey` may mutate this vault: creator or guardian.
    pub fn is_admin(&self, pubkey: u64) -> (r: bool)
        ensures
            r == self.spec_is_admin(pubkey),
    {
        pubkey == self.creator || self.is_guardian(pubkey)
    }

    /// Adds `candidate` to the guardian set on behalf of `caller`.
    ///
    /// Fails `Unauthorized` unless `caller` is an admin, `VaultClosed` on a
    /// closed vault, `AlreadyGuardian` if `candidate` is present, and
    /// `GuardianListFull` when the set already holds [`MAX_GUARDIANS`]
    /// members — it never silently drops a candidate. Errors leave the vault
    /// unchanged.
    pub fn add_guardian(&mut self, caller: u64, candidate: u64) -> (r: Result<(), MurkError>)
        requires
            old(self).wf(),
        ensures
            final(self).wf(),
            final(self).is_closed == old(self).is_closed,
            !old(self).spec_is_admin(caller) ==> r == Err::<(), MurkError>(
                MurkError::Unauthorized,
            ) && *final(self) == *old(self),
            old(self).spec_is_admin(caller) && old(self).is_closed ==> r == Err::<(), MurkError>(
                MurkError::VaultClosed,
            ) && *final(self) == *old(self),
            old(self).spec_is_admin(caller) && !old(self).is_closed && old(self).spec_is_guardian(
                candidate,
            ) ==> r == Err::<(), MurkError>(MurkError::AlreadyGuardian) && *final(self) == *old(self),
            old(self).spec_is_admin(caller) && !old(self).is_closed && !old(self).spec_is_guardian(candidate) && old(self).guardians@.len() >= MAX_GUARDIANS ==> r
                == Err::<(), MurkError>(MurkError::GuardianListFull) && *final(self) == *old(self),
            old(self).spec_is_admin(caller) && !old(self).is_closed && !old(self).spec_is_guardian(candidate) && old(self).guardians@.len() < MAX_GUARDIANS ==> {
                &&& r == Ok::<(), MurkError>(())
                &&& final(self).guardians@ == old(self).guardians@.push(candidate)
                &&& final(self).guardian_set() == old(self).guardian_set().insert(candidate)
                &&& final(self).creator == old(self).creator
                &&& final(self).id == old(self).id
                &&& final(self).asset == old(self).asset
                &&& final(self).max_deposit == old(self).max_deposit
                &&& final(self).is_frozen == old(self).is_frozen
            },
    {
        if !self.is_admin(caller) {
            return Err(MurkError::Unauthorized);
        }
        if self.is_closed {
            return Err(MurkError::VaultClosed);
        }
        if self.is_guardian(candidate) {
            return Err(MurkError::AlreadyGuardian);
        }
        if self.guardians.len() >= MAX_GUARDIANS {
            return Err(MurkError::GuardianListFull);
        }
        let ghost g0 = self.guardians@;
        self.guardians.push(candidate);
        proof {
            broadcast use vstd::set::group_set_axioms;

            let g1 = self.guardians@;
            assert forall|i: int, j: int|
                0 <= i < g1.len() && 0 <= j < g1.len() && i != j implies g1[i] != g1[j] by {
                if i < g0.len() && j < g0.len() {
                } else if i == g0.len() {
                    assert(g1[i] == candidate);
                    assert(g0[j] != candidate);
                } else {
                    assert(g1[j] == candidate);
                    assert(g0[i] != candidate);
                }
            }
            assert forall|x: u64| g1.contains(x) implies (g0.contains(x) || x == candidate) by {
                let i = choose|i: int| 0 <= i < g1.len() && g1[i] == x;
                if i < g0.len() {
                    assert(g0[i] == x);
                }
            }
            assert forall|x: u64| g0.contains(x) implies g1.contains(x) by {
                let i = choose|i: int| 0 <= i < g0.len() && g0[i] == x;
                assert(g1[i] == x);
            }
            assert(g1[g0.len() as int] == candidate);
            assert(g1.contains(candidate));
            assert(self.guardian_set() =~= old(self).guardian_set().insert(candidate));
        }
        Ok(())
    }

    /// Removes `candidate` from the guardian set on behalf of `caller`.
    ///
    /// Fails `Unauthorized` unless `caller` is an admin, `VaultClosed` on a
    /// closed vault, and `GuardianNotFound` if `candidate` is absent. Errors
    /// leave the vault unchanged.
    pub fn remove_guardian(&mut self, caller: u64, candidate: u64) -> (r: Result<(), MurkError>)
        requires
            old(self).wf(),
        ensures
            final(self).wf(),
            final(self).is_closed == old(self).is_closed,
            !old(self).spec_is_admin(caller) ==> r == Err::<(), MurkError>(
                MurkError::Unauthorized,
            ) && *final(self) == *old(self),
            old(self).spec_is_admin(caller) && old(self).is_closed ==> r == Err::<(), MurkError>(
                MurkError::VaultClosed,
            ) && *final(self) == *old(self),
            old(self).spec_is_admin(caller) && !old(self).is_closed && !old(self).spec_is_guardian(candidate) ==> r == Err::<(), MurkError>(
                MurkError::GuardianNotFound,
            ) && *final(self) == *old(self),
            old(self).spec_is_admin(caller) && !old(self).is_closed && old(self).spec_is_guardian(
                candidate,
            ) ==> {
                &&& r == Ok::<(), MurkError>(())
                &&& final(self).guardians@.len() == old(self).guardians@.len() - 1
                &&& final(self).guardian_set() == old(self).guardian_set().remove(candidate)
                &&& !final(self).spec_is_guardian(candidate)
                &&& final(self).creator == old(self).creator
                &&& final(self).id == old(self).id
                &&& final(self).asset == old(self).asset
                &&& final(self).max_deposit == old(self).max_deposit
                &&& final(self).is_frozen == old(self).is_frozen
            },
    {
        if !self.is_admin(caller) {
            return Err(MurkError::Unauthorized);
        }
        if self.is_closed {
            return Err(MurkError::VaultClosed);
        }
        let mut i: usize = 0;
        while i < self.guardians.len()
            invariant
                old(self).wf(),
                old(self).spec_is_admin(caller),
                !old(self).is_closed,
                *self == *old(self),
                i <= self.guardians.len(),
                forall|k: int| 0 <= k < i ==> self.guardians@[k] != candidate,
            decreases self.guardians.len() - i,
        {
            if self.guardians[i] == candidate {
                let ghost g0 = self.guardians@;
                proof {
                    assert(g0[i as int] == candidate);
                    assert(g0.contains(candidate));
                }
                self.guardians.remove(i);
                proof {
                    broadcast use vstd::set::group_set_axioms;

                    let g1 = self.guardians@;
                    g0.remove_ensures(i as int);
                    assert(g1 == g0.remove(i as int));
                    assert(g0.no_duplicates());
                    assert forall|a: int, b: int|
                        0 <= a < g1.len() && 0 <= b < g1.len() && a != b implies g1[a] != g1[b] by {
                        let a0: int = if a < i { a } else { a + 1 };
                        let b0: int = if b < i { b } else { b + 1 };
                        assert(g1[a] == g0[a0]);
                        assert(g1[b] == g0[b0]);
                    }
                    assert forall|x: u64| g1.contains(x) implies (g0.contains(x) && x
                        != candidate) by {
                        let k = choose|k: int| 0 <= k < g1.len() && g1[k] == x;
                        let k0: int = if k < i { k } else { k + 1 };
                        assert(g0[k0] == x);
                        assert(k0 != i);
                        assert(g0[i as int] == candidate);
                    }
                    assert forall|x: u64| g0.contains(x) && x != candidate implies g1.contains(
                        x,
                    ) by {
                        let j = choose|j: int| 0 <= j < g0.len() && g0[j] == x;
                        if j < i {
                            assert(g1[j] == x);
                        } else {
                            assert(g1[j - 1] == x);
                        }
                    }
                    assert(self.guardian_set() =~= old(self).guardian_set().remove(candidate));
                }
                return Ok(());
            }
            i = i + 1;
        }
        Err(MurkError::GuardianNotFound)
    }
}

/// Creates a vault: the registry assigns the identifier and moves its counter
/// up, so this identifier is never issued to another vault. The new vault is
/// active, unfrozen, open, and has no guardians; its event record is returned
/// beside it for the host to deliver.
pub fn handle_create_vault(
    state: &mut State,
    creator: u64,
    asset: u64,
    max_deposit: Option<u64>,
) -> (r: (Vault, VaultCreated))
    requires
        old(state).wf(),
        old(state).is_initialized,
        old(state).next_vault_id < u64::MAX,
    ensures
        final(state).wf(),
        *final(state) == (State {
            next_vault_id: (old(state).next_vault_id + 1) as u64,
            ..*old(state)
        }),
        r.0.creator == creator,
        r.0.id == old(state).next_vault_id,
        r.0.asset == asset,
        r.0.max_deposit == max_deposit,
        !r.0.is_frozen,
        !r.0.is_closed,
        r.0.guardians@ == Seq::<u64>::empty(),
        r.0.wf(),
        r.1 == (VaultCreated { creator, vault_id: old(state).next_vault_id }),
{
    let id = state.allocate_vault_id();
    let vault = Vault {
        creator,
        id,
        asset,
        max_deposit,
        is_frozen: false,
        is_closed: false,
        guardians: Vec::new(),
    };
    let event = VaultCreated { creator, vault_id: id };
    (vault, event)
}

/// Freezes a vault on behalf of `caller`.
///
/// Fails `Unauthorized` unless `caller` is an admin, `VaultClosed` on a
/// closed vault, and `AlreadyFrozen` if the vault is already frozen. On
/// success only the `is_frozen` flag moves. Errors leave the vault unchanged.
pub fn handle_freeze_vault(vault: &mut Vault, caller: u64) -> (r: Result<VaultFrozen, MurkError>)
    requires
        old(vault).wf(),
    ensures
        final(vault).wf(),
        final(vault).is_closed == old(vault).is_closed,
        !old(vault).spec_is_admin(caller) ==> r == Err::<VaultFrozen, MurkError>(
            MurkError::Unauthorized,
        ) && *final(vault) == *old(vault),
        old(vault).spec_is_admin(caller) && old(vault).is_closed ==> r == Err::<
            VaultFrozen,
            MurkError,
        >(MurkError::VaultClosed) && *final(vault) == *old(vault),
        old(vault).spec_is_admin(caller) && !old(vault).is_closed && old(vault).is_frozen ==> r
            == Err::<VaultFrozen, MurkError>(MurkError::AlreadyFrozen) && *final(vault) == *old(vault),
        old(vault).spec_is_admin(caller) && !old(vault).is_closed && !old(vault).is_frozen ==> r
            == Ok::<VaultFrozen, MurkError>(VaultFrozen { vault_id: old(vault).id }) && *final(vault) == spec_frozen(*old(vault)),
{
    if !vault.is_admin(caller) {
        return Err(MurkError::Unauthorized);
    }
    if vault.is_closed {
        return Err(MurkError::VaultClosed);
    }
    if vault.is_frozen {
        return Err(MurkError::AlreadyFrozen);
    }
    vault.is_frozen = true;
    Ok(VaultFrozen { vault_id: vault.id })
}

/// Unfreezes a vault on behalf of `caller`.
///
/// Fails `Unauthorized` unless `caller` is an admin, `VaultClosed` on a
/// closed vault, and `NotFrozen` if the vault is not frozen. On success only
/// the `is_frozen` flag moves. Errors leave the vault unchanged.
pub fn handle_unfreeze_vault(vault: &mut Vault, caller: u64) -> (r: Result<
    VaultUnfrozen,
    MurkError,
>)
    requires
        old(vault).wf(),
    ensures
        final(vault).wf(),
        final(vault).is_closed == old(vault).is_closed,
        !old(vault).spec_is_admin(caller) ==> r == Err::<VaultUnfrozen, MurkError>(
            MurkError::Unauthorized,
        ) && *final(vault) == *old(vault),
        old(vault).spec_is_admin(caller) && old(vault).is_closed ==> r == Err::<
            VaultUnfrozen,
            MurkError,
        >(MurkError::VaultClosed) && *final(vault) == *old(vault),
        old(vault).spec_is_admin(caller) && !old(vault).is_closed && !old(vault).is_frozen ==> r
            == Err::<VaultUnfrozen, MurkError>(MurkError::NotFrozen) && *final(vault) == *old(vault),
        old(vault).spec_is_admin(caller) && !old(vault).is_closed && old(vault).is_frozen ==> r
            == Ok::<VaultUnfrozen, MurkError>(VaultUnfrozen { vault_id: old(vault).id }) && *final(vault) == spec_unfrozen(*old(vault)),
{
    if !vault.is_admin(caller) {
        return Err(MurkError::Unauthorized);
    }
    if vault.is_closed {
        return Err(MurkError::VaultClosed);
    }
    if !vault.is_frozen {
        return Err(MurkError::NotFrozen);
    }
    vault.is_frozen = false;
    Ok(VaultUnfrozen { vault_id: vault.id })
}

/// Permanently closes a vault on behalf of `caller`.
///
/// Fails `Unauthorized` unless `caller` is an admin and `AlreadyClosed` if
/// the vault is already closed. Closing is irreversible: no operation in this
/// library clears the flag. Errors leave the vault unchanged.
pub fn handle_close_vault(vault: &mut Vault, caller: u64) -> (r: Result<VaultClosed, MurkError>)
    requires
        old(vault).wf(),
    ensures
        final(vault).wf(),
        old(vault).is_closed ==> final(vault).is_closed,
        !old(vault).spec_is_admin(caller) ==> r == Err::<VaultClosed, MurkError>(
            MurkError::Unauthorized,
        ) && *final(vault) == *old(vault),
        old(vault).spec_is_admin(caller) && old(vault).is_closed ==> r == Err::<
            VaultClosed,
            MurkError,
        >(MurkError::AlreadyClosed) && *final(vault) == *old(vault),
        old(vault).spec_is_admin(caller) && !old(vault).is_closed ==> r == Ok::<
            VaultClosed,
            MurkError,
        >(VaultClosed { vault_id: old(vault).id }) && *final(vault) == spec_closed(*old(vault)),
{
    if !vault.is_admin(caller) {
        return Err(MurkError::Unauthorized);
    }
    if vault.is_closed {
        return Err(MurkError::AlreadyClosed);
    }
    vault.is_closed = true;
    Ok(VaultClosed { vault_id: vault.id })
}

/// Freezing and then unfreezing restores the exact pre-freeze vault: the same
/// admin set, flags, and every other field. Freezing touches nothing but the
/// `is_frozen` flag, so the round trip is the identity on any unfrozen vault.
pub proof fn lemma_freeze_unfreeze_round_trip(v: Vault)
    requires
        !v.is_frozen,
    ensures
        spec_unfrozen(spec_frozen(v)) == v,
{
}

/// A closed vault stays closed: `close` sets the flag, no transition clears
/// it, and every mutating operation returns a closed vault unchanged with an
/// error (see their contracts).
pub proof fn lemma_close_is_terminal(v: Vault)
    ensures
        spec_closed(v).is_closed,
        spec_frozen(v).is_closed == v.is_closed,
        spec_unfrozen(v).is_closed == v.is_closed,
        spec_closed(spec_closed(v)) == spec_closed(v),
{
}

/// The guardian set of a well-formed vault never exceeds its capacity.
pub proof fn lemma_guardian_capacity(v: Vault)
    requires
        v.wf(),
    ensures
        v.guardian_set().len() <= MAX_GUARDIANS,
{
    v.guardians@.lemma_cardinality_of_set();
}

} // verus!
