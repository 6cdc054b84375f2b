//! A standalone guardian record, owned by the vault's authorization
//! subsystem (never by a depositor).

use vstd::prelude::*;

use crate::error::MurkError;

verus! {

/// One guardian principal and whether it is active.
#[derive(Clone, Copy, Debug, PartialEq, Eq, Structural)]
pub struct Guardian {
    pub pubkey: u64,
    pub is_active: bool,
}

/// Activates a freshly allocated guardian record; the principal it names
/// does not change.
pub fn handle_create_gaurdian(guardian: &mut Guardian) -> (r: Result<(), MurkError>)
    ensures
        r == Ok::<(), MurkError>(()),
        *final(guardian) == (Guardian { pubkey: old(guardian).pubkey, is_active: true }),
{
    guardian.is_active = true;
    Ok(())
}

} // verus!
