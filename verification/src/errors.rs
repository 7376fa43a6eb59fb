//! The error taxonomy of the ledger engine.
//!
//! Every mutating entry point of the core engine returns either the fully
//! updated state or one specific kind from this list, so callers can
//! branch on the reason for a failure.

use vstd::prelude::*;

verus! {

/// Why a ledger or journal operation was refused.
#[derive(Clone, Copy, Debug, PartialEq, Eq, Structural)]
pub enum LedgerError {
    /// The principal is not the identity the operation requires.
    Unauthorized,
    /// The principal is known but its role lacks the needed capability.
    InsufficientCapability,
    /// The principal is suspended or terminated and may not act.
    InactiveParty,
    /// A non-positive amount was presented to a mutator.
    InvalidAmount,
    /// A debit exceeds the available balance.
    InsufficientBalance,
    /// The operation requires an account that has no history.
    AccountNotFound,
    /// An aggregation filter has no defined boundary semantics.
    InvalidFilter,
    /// The persistence collaborator cannot take the mutation; the whole
    /// mutating unit is aborted and nothing is committed.
    StorageFault,
}

} // verus!
