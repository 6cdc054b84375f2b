//! A custody vault library: vaults accept deposits of a fungible asset from
//! many depositors, track each depositor's claim, and release funds through a
//! slot-based withdrawal-request lifecycle, under an authorization layer of
//! vault creator plus guardians who may freeze, unfreeze, or permanently close
//! a vault.
//!
//! The library holds the accounting and authorization state machine itself.
//! Moving the real asset, deriving storage addresses, and delivering events
//! are the host's job: a host performs the external transfer first and commits
//! the ledger mutation here only after the transfer reports success.

pub mod error;
pub mod events;
pub mod guardian;
pub mod ledger;
pub mod registry;
pub mod user;
pub mod vault;
