//! A ledger and journal engine for account-based bookkeeping.
//!
//! The crate maintains per-account balances under a strict non-negativity
//! invariant, records every value-moving event in an append-only journal,
//! and computes deterministic aggregates (period reports, KPI snapshots,
//! tier classifications) from that journal. Identity verification,
//! persistent storage and clocks are collaborators outside this crate:
//! every operation takes an already-authenticated principal and a
//! caller-supplied logical timestamp, and each ledger instance is an
//! explicit value with no process-wide state.

use vstd::prelude::*;

pub mod accounting;
pub mod analytics;
pub mod balances;
pub mod crm;
pub mod dashboard;
pub mod employees;
pub mod engine;
pub mod errors;
pub mod inventory;
pub mod journal;
pub mod laws;
pub mod loyalty;
pub mod payments;
pub mod payroll;
pub mod pos;
pub mod report;
pub mod retail;
pub mod tier;
pub mod vendors;
pub mod xmoney;

verus! {

/// An opaque, comparable identity token for an account or principal.
/// The identity provider that authenticates principals is a collaborator
/// outside this crate; here an identity is just a comparable value.
pub type AccountId = u64;

/// Upper bound on the cumulative amount a journal (and hence any single
/// balance, and any aggregate sum) can carry. A mutation that would push
/// the running total past this bound fails with a storage fault and
/// commits nothing, which keeps every aggregate computed by this crate
/// free of arithmetic overflow.
pub const MAX_TOTAL_AMOUNT: i128 = 1_000_000_000_000_000_000_000_000_000_000;

} // verus!
