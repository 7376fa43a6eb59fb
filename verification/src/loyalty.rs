//! The loyalty token: a points ledger with admin-gated issuance,
//! self-gated redemption, and an append-only transaction journal.
//!
//! Every successful value-moving mutation appends exactly one journal
//! record whose parties and amount match the balance delta, before the
//! call returns; a failed mutation commits nothing.

use vstd::prelude::*;
use crate::{AccountId, MAX_TOTAL_AMOUNT};
use crate::balances::BalanceMap;
use crate::errors::LedgerError;
use crate::journal::{
    spec_appended_record, spec_filter_records, Journal, RecordFilter, TransactionRecord,
    TransactionType,
};

verus! {

/// The loyalty points ledger instance.
pub struct LoyaltyToken {
    admin: AccountId,
    balances: BalanceMap,
    journal: Journal,
    total_issued: i128,
}

impl LoyaltyToken {
    /// The configured administrator identity.
    pub closed spec fn spec_admin(&self) -> AccountId {
        self.admin
    }

    /// The points balance of an account; zero when it has no history.
    pub closed spec fn balance(&self, owner: AccountId) -> int {
        self.balances.balance(owner)
    }

    /// The sum of all points balances.
    pub closed spec fn total_points(&self) -> int {
        self.balances.total()
    }

    /// The journal records in insertion order.
    pub closed spec fn records(&self) -> Seq<TransactionRecord> {
        self.journal.records()
    }

    /// The sum of all journalled amounts.
    pub closed spec fn journal_total(&self) -> int {
        self.journal.total()
    }

    /// Balances and journal are well formed, the cached total agrees with
    /// the balances, and the points total never exceeds the journalled
    /// total (each issued point was journalled on its way in).
    pub closed spec fn wf(&self) -> bool {
        &&& self.balances.wf()
        &&& self.journal.wf()
        &&& self.total_issued == self.balances.total()
        &&& self.balances.total() <= self.journal.total()
    }

    /// Law: in a well-formed ledger no points balance is negative.
    pub proof fn lemma_balance_nonnegative(&self, owner: AccountId)
        requires
            self.wf(),
        ensures
            0 <= self.balance(owner) <= self.total_points(),
            self.total_points() <= self.journal_total() <= MAX_TOTAL_AMOUNT,
    {
        self.balances.lemma_balance_bounds(owner);
        self.journal.lemma_wf_facts();
    }

    /// A fresh points ledger configured with its administrator.
    pub fn init(admin: AccountId) -> (token: Self)
        ensures
            token.wf(),
            token.spec_admin() == admin,
            forall|k: AccountId| token.balance(k) == 0,
            token.total_points() == 0,
            token.records() == Seq::<TransactionRecord>::empty(),
            token.journal_total() == 0,
    {
        LoyaltyToken {
            admin,
            balances: BalanceMap::new(),
            journal: Journal::new(),
            total_issued: 0,
        }
    }

    /// Issues points to an account and journals exactly one
    /// system-originated record of it (no origin), as a single atomic
    /// unit. Admin-gated: only the configured administrator can create
    /// points. Fails with `StorageFault` when the bounded journal cannot
    /// take the record; a failed call commits nothing.
    pub fn issue_points(
        &mut self,
        caller: AccountId,
        to: AccountId,
        amount: i128,
        timestamp: u64,
    ) -> (outcome: Result<(), LedgerError>)
        requires
            old(self).wf(),
        ensures
            final(self).wf(),
            final(self).spec_admin() == old(self).spec_admin(),
            caller != old(self).spec_admin() ==> outcome == Err::<(), LedgerError>(
                LedgerError::Unauthorized,
            ) && *final(self) == *old(self),
            caller == old(self).spec_admin() && amount <= 0 ==> outcome == Err::<(), LedgerError>(
                LedgerError::InvalidAmount,
            ) && *final(self) == *old(self),
            caller == old(self).spec_admin() && amount > 0 && old(self).journal_total() + amount
                > MAX_TOTAL_AMOUNT ==> outcome == Err::<(), LedgerError>(LedgerError::StorageFault)
                && *final(self) == *old(self),
            caller == old(self).spec_admin() && amount > 0 && old(self).journal_total() + amount
                <= MAX_TOTAL_AMOUNT ==> outcome == Ok::<(), LedgerError>(()) && {
                &&& final(self).balance(to) == old(self).balance(to) + amount
                &&& (forall|k: AccountId|
                    k != to ==> #[trigger] final(self).balance(k) == old(self).balance(k))
                &&& final(self).total_points() == old(self).total_points() + amount
                &&& spec_appended_record(
                    old(self).records(),
                    final(self).records(),
                    None,
                    Some(to),
                    amount,
                    TransactionType::Revenue,
                    "points issued"@,
                    timestamp,
                )
                &&& final(self).journal_total() == old(self).journal_total() + amount
            },
    {
        if caller != self.admin {
            return Err(LedgerError::Unauthorized);
        }
        if amount <= 0 {
            return Err(LedgerError::InvalidAmount);
        }
        let ghost records_before = self.journal.records();
        let appended = self.journal.append(
            None,
            Some(to),
            amount,
            TransactionType::Revenue,
            String::from_str("points issued"),
            timestamp,
        );
        match appended {
            Err(error) => Err(error),
            Ok(_) => {
                proof {
                    assert(self.journal.records().take(records_before.len() as int)
                        =~= records_before);
                    self.balances.lemma_balance_bounds(to);
                }
                self.balances.add_to(to, amount);
                self.total_issued = self.total_issued + amount;
                Ok(())
            },
        }
    }

    /// Reads the points balance of an account; an account with no history
    /// reads as zero.
    pub fn get_balance(&self, owner: AccountId) -> (balance: i128)
        ensures
            balance == self.balance(owner),
    {
        self.balances.get(owner)
    }

    /// Redeems points from an account and journals exactly one record of
    /// the withdrawal (no destination), as a single atomic unit; no
    /// partial redemptions. Self-gated: `from` is the authenticated
    /// principal spending its own points. Fails with `StorageFault` when
    /// the bounded journal cannot take the record.
    pub fn redeem_points(
        &mut self,
        from: AccountId,
        amount: i128,
        timestamp: u64,
    ) -> (outcome: Result<(), LedgerError>)
        requires
            old(self).wf(),
        ensures
            final(self).wf(),
            final(self).spec_admin() == old(self).spec_admin(),
            amount <= 0 ==> outcome == Err::<(), LedgerError>(LedgerError::InvalidAmount)
                && *final(self) == *old(self),
            amount > 0 && old(self).balance(from) < amount ==> outcome == Err::<(), LedgerError>(
                LedgerError::InsufficientBalance,
            ) && *final(self) == *old(self),
            amount > 0 && old(self).balance(from) >= amount && old(self).journal_total() + amount
                > MAX_TOTAL_AMOUNT ==> outcome == Err::<(), LedgerError>(LedgerError::StorageFault)
                && *final(self) == *old(self),
            amount > 0 && old(self).balance(from) >= amount && old(self).journal_total() + amount
                <= MAX_TOTAL_AMOUNT ==> outcome == Ok::<(), LedgerError>(()) && {
                &&& final(self).balance(from) == old(self).balance(from) - amount
                &&& (forall|k: AccountId|
                    k != from ==> #[trigger] final(self).balance(k) == old(self).balance(k))
                &&& final(self).total_points() == old(self).total_points() - amount
                &&& spec_appended_record(
                    old(self).records(),
                    final(self).records(),
                    Some(from),
                    None,
                    amount,
                    TransactionType::Expense,
                    "points redeemed"@,
                    timestamp,
                )
                &&& final(self).journal_total() == old(self).journal_total() + amount
            },
    {
        if amount <= 0 {
            return Err(LedgerError::InvalidAmount);
        }
        let available = self.balances.get(from);
        if available < amount {
            return Err(LedgerError::InsufficientBalance);
        }
        let ghost records_before = self.journal.records();
        let appended = self.journal.append(
            Some(from),
            None,
            amount,
            TransactionType::Expense,
            String::from_str("points redeemed"),
            timestamp,
        );
        match appended {
            Err(error) => Err(error),
            Ok(_) => {
                proof {
                    assert(self.journal.records().take(records_before.len() as int)
                        =~= records_before);
                }
                self.balances.sub_from(from, amount);
                proof {
                    self.balances.lemma_balance_bounds(from);
                }
                self.total_issued = self.total_issued - amount;
                Ok(())
            },
        }
    }

    /// Returns the journal records passing `filter`, in insertion order;
    /// fails only on a filter without defined boundary semantics.
    pub fn query(&self, filter: &RecordFilter) -> (outcome: Result<
        Vec<TransactionRecord>,
        LedgerError,
    >)
        ensures
            !filter.spec_valid() ==> outcome == Err::<Vec<TransactionRecord>, LedgerError>(
                LedgerError::InvalidFilter,
            ),
            filter.spec_valid() ==> (outcome matches Ok(selected) && selected@
                == spec_filter_records(self.records(), *filter)),
    {
        self.journal.query(filter)
    }
}

} // verus!
