//! The ledger engine: balances, journal and gate combined into one
//! explicit instance.
//!
//! A mutation runs as one uninterruptible unit: authorization is checked first,
//! the amount is validated, the balance delta is applied, and exactly one
//! journal record of the event is appended — or nothing at all happens and
//! one specific error kind is returned. Read operations never mutate and
//! always observe a balance together with its journal history.
//!
//! The authorization modes follow the callers: crediting mints value from outside
//! and is admin-gated; debiting and transferring spend an account's own
//! funds and are self-gated on that account.

use vstd::prelude::*;
use crate::{AccountId, MAX_TOTAL_AMOUNT};
use crate::balances::BalanceMap;
use crate::errors::LedgerError;
use crate::journal::{Journal, RecordFilter, TransactionRecord, TransactionType};
use crate::report::{spec_summary_of, summarize, ReportSummary};

verus! {

/// One ledger instance: the configured administrator identity, the
/// balance store, and the journal. Instances are independent values;
/// there is no process-wide state.
pub struct LedgerEngine {
    admin: AccountId,
    balances: BalanceMap,
    journal: Journal,
}

/// Everything a successful or failed `credit` call may do to the engine:
/// admin-gated, validated before any state change, and journalled as
/// exactly one record whose parties and amount match the balance delta.
pub open spec fn spec_credit_effect(
    pre: LedgerEngine,
    post: LedgerEngine,
    principal: AccountId,
    account: AccountId,
    amount: i128,
    category: TransactionType,
    description: String,
    timestamp: u64,
    outcome: Result<u64, LedgerError>,
) -> bool {
    &&& post.spec_admin() == pre.spec_admin()
    &&& (pre.wf() ==> post.wf())
    &&& (principal != pre.spec_admin() ==> outcome == Err::<u64, LedgerError>(
        LedgerError::Unauthorized,
    ) && post == pre)
    &&& (principal == pre.spec_admin() && amount <= 0 ==> outcome == Err::<u64, LedgerError>(
        LedgerError::InvalidAmount,
    ) && post == pre)
    &&& (principal == pre.spec_admin() && amount > 0 && pre.journal_total() + amount
        > MAX_TOTAL_AMOUNT ==> outcome == Err::<u64, LedgerError>(LedgerError::StorageFault)
        && post == pre)
    &&& (principal == pre.spec_admin() && amount > 0 && pre.journal_total() + amount
        <= MAX_TOTAL_AMOUNT ==> {
        &&& outcome == Ok::<u64, LedgerError>(pre.records().len() as u64)
        &&& post.balance(account) == pre.balance(account) + amount
        &&& (forall|k: AccountId|
            k != account ==> #[trigger] post.balance(k) == pre.balance(k))
        &&& post.total_balance() == pre.total_balance() + amount
        &&& post.records() == pre.records().push(
            (TransactionRecord {
                id: pre.records().len() as u64,
                origin: None,
                destination: Some(account),
                amount,
                category,
                description,
                timestamp,
            }),
        )
        &&& post.journal_total() == pre.journal_total() + amount
    })
}

/// Everything a successful or failed `debit` call may do to the engine:
/// self-gated on the debited account, no partial debits, and journalled as
/// exactly one record whose parties and amount match the balance delta.
pub open spec fn spec_debit_effect(
    pre: LedgerEngine,
    post: LedgerEngine,
    principal: AccountId,
    account: AccountId,
    amount: i128,
    category: TransactionType,
    description: String,
    timestamp: u64,
    outcome: Result<u64, LedgerError>,
) -> bool {
    &&& post.spec_admin() == pre.spec_admin()
    &&& (pre.wf() ==> post.wf())
    &&& (principal != account ==> outcome == Err::<u64, LedgerError>(LedgerError::Unauthorized)
        && post == pre)
    &&& (principal == account && amount <= 0 ==> outcome == Err::<u64, LedgerError>(
        LedgerError::InvalidAmount,
    ) && post == pre)
    &&& (principal == account && amount > 0 && pre.balance(account) < amount ==> outcome
        == Err::<u64, LedgerError>(LedgerError::InsufficientBalance) && post == pre)
    &&& (principal == account && amount > 0 && pre.balance(account) >= amount
        && pre.journal_total() + amount > MAX_TOTAL_AMOUNT ==> outcome == Err::<
        u64,
        LedgerError,
    >(LedgerError::StorageFault) && post == pre)
    &&& (principal == account && amount > 0 && pre.balance(account) >= amount
        && pre.journal_total() + amount <= MAX_TOTAL_AMOUNT ==> {
        &&& outcome == Ok::<u64, LedgerError>(pre.records().len() as u64)
        &&& post.balance(account) == pre.balance(account) - amount
        &&& (forall|k: AccountId|
            k != account ==> #[trigger] post.balance(k) == pre.balance(k))
        &&& post.total_balance() == pre.total_balance() - amount
        &&& post.records() == pre.records().push(
            (TransactionRecord {
                id: pre.records().len() as u64,
                origin: Some(account),
                destination: None,
                amount,
                category,
                description,
                timestamp,
            }),
        )
        &&& post.journal_total() == pre.journal_total() + amount
    })
}

/// Everything a successful or failed `transfer` call may do to the engine.
/// The debit check and the credit apply as a single atomic unit: when the
/// debit check fails, no credit and no record are produced, and the sum of
/// all balances is conserved in every case.
pub open spec fn spec_transfer_effect(
    pre: LedgerEngine,
    post: LedgerEngine,
    from: AccountId,
    to: AccountId,
    amount: i128,
    description: String,
    timestamp: u64,
    outcome: Result<u64, LedgerError>,
) -> bool {
    &&& post.spec_admin() == pre.spec_admin()
    &&& (pre.wf() ==> post.wf())
    &&& (pre.wf() ==> post.total_balance() == pre.total_balance())
    &&& (amount <= 0 ==> outcome == Err::<u64, LedgerError>(LedgerError::InvalidAmount) && post
        == pre)
    &&& (amount > 0 && pre.balance(from) < amount ==> outcome == Err::<u64, LedgerError>(
        LedgerError::InsufficientBalance,
    ) && post == pre)
    &&& (amount > 0 && pre.balance(from) >= amount && pre.journal_total() + amount
        > MAX_TOTAL_AMOUNT ==> outcome == Err::<u64, LedgerError>(LedgerError::StorageFault)
        && post == pre)
    &&& (amount > 0 && pre.balance(from) >= amount && pre.journal_total() + amount
        <= MAX_TOTAL_AMOUNT ==> {
        &&& outcome == Ok::<u64, LedgerError>(pre.records().len() as u64)
        &&& (from != to ==> post.balance(from) == pre.balance(from) - amount && post.balance(
            to,
        ) == pre.balance(to) + amount)
        &&& (from == to ==> post.balance(from) == pre.balance(from))
        &&& (forall|k: AccountId|
            k != from && k != to ==> #[trigger] post.balance(k) == pre.balance(k))
        &&& post.records() == pre.records().push(
            (TransactionRecord {
                id: pre.records().len() as u64,
                origin: Some(from),
                destination: Some(to),
                amount,
                category: TransactionType::Transfer,
                description,
                timestamp,
            }),
        )
        &&& post.journal_total() == pre.journal_total() + amount
    })
}

impl LedgerEngine {
    /// The configured administrator identity.
    pub closed spec fn spec_admin(&self) -> AccountId {
        self.admin
    }

    /// The balance of an account; zero when it has no history.
    pub closed spec fn balance(&self, account: AccountId) -> int {
        self.balances.balance(account)
    }

    /// The sum of all balances.
    pub closed spec fn total_balance(&self) -> int {
        self.balances.total()
    }

    /// The journal records in insertion order.
    pub closed spec fn records(&self) -> Seq<TransactionRecord> {
        self.journal.records()
    }

    /// The sum of all journal record amounts.
    pub closed spec fn journal_total(&self) -> int {
        self.journal.total()
    }

    /// Balances and journal are each well formed, and the sum of all
    /// balances never exceeds the sum of all journalled amounts (each
    /// unit of balance was journalled on its way in).
    pub closed spec fn wf(&self) -> bool {
        &&& self.balances.wf()
        &&& self.journal.wf()
        &&& self.balances.total() <= self.journal.total()
    }

    /// Law: in a well-formed engine no balance is observed negative, and
    /// every balance is bounded by the journalled total.
    pub proof fn lemma_balance_nonnegative(&self, account: AccountId)
        requires
            self.wf(),
        ensures
            0 <= self.balance(account),
            self.balance(account) <= self.total_balance(),
            self.total_balance() <= self.journal_total() <= MAX_TOTAL_AMOUNT,
    {
        self.balances.lemma_balance_bounds(account);
        self.journal.lemma_wf_facts();
    }

    /// A fresh ledger instance configured with its administrator: no
    /// account has history and the journal is empty.
    pub fn initialize(admin: AccountId) -> (engine: Self)
        ensures
            engine.wf(),
            engine.spec_admin() == admin,
            forall|k: AccountId| engine.balance(k) == 0,
            engine.total_balance() == 0,
            engine.records() == Seq::<TransactionRecord>::empty(),
            engine.journal_total() == 0,
    {
        LedgerEngine { admin, balances: BalanceMap::new(), journal: Journal::new() }
    }

    /// Reads the configured administrator identity.
    pub fn admin_account(&self) -> (admin: AccountId)
        ensures
            admin == self.spec_admin(),
    {
        self.admin
    }

    /// Reads the balance of an account; an account with no history reads
    /// as zero rather than an error.
    pub fn get_balance(&self, account: AccountId) -> (balance: i128)
        ensures
            balance == self.balance(account),
    {
        self.balances.get(account)
    }

    /// Credits `amount` to `account`, creating it on first credit.
    /// Admin-gated: value entering from outside requires the configured
    /// administrator as principal.
    pub fn credit(
        &mut self,
        principal: AccountId,
        account: AccountId,
        amount: i128,
        category: TransactionType,
        description: String,
        timestamp: u64,
    ) -> (outcome: Result<u64, LedgerError>)
        requires
            old(self).wf(),
        ensures
            spec_credit_effect(
                *old(self),
                *final(self),
                principal,
                account,
                amount,
                category,
                description,
                timestamp,
                outcome,
            ),
    {
        if principal != self.admin {
            return Err(LedgerError::Unauthorized);
        }
        proof {
            self.lemma_balance_nonnegative(account);
        }
        let appended = self.journal.append(
            None,
            Some(account),
            amount,
            category,
            description,
            timestamp,
        );
        match appended {
            Err(error) => Err(error),
            Ok(id) => {
                self.balances.add_to(account, amount);
                Ok(id)
            },
        }
    }

    /// Debits `amount` from `account`; no partial debits. Self-gated: only
    /// the account itself can spend its funds.
    pub fn debit(
        &mut self,
        principal: AccountId,
        account: AccountId,
        amount: i128,
        category: TransactionType,
        description: String,
        timestamp: u64,
    ) -> (outcome: Result<u64, LedgerError>)
        requires
            old(self).wf(),
        ensures
            spec_debit_effect(
                *old(self),
                *final(self),
                principal,
                account,
                amount,
                category,
                description,
                timestamp,
                outcome,
            ),
    {
        if principal != account {
            return Err(LedgerError::Unauthorized);
        }
        if amount <= 0 {
            return Err(LedgerError::InvalidAmount);
        }
        let available = self.balances.get(account);
        if available < amount {
            return Err(LedgerError::InsufficientBalance);
        }
        proof {
            self.lemma_balance_nonnegative(account);
        }
        let appended = self.journal.append(
            Some(account),
            None,
            amount,
            category,
            description,
            timestamp,
        );
        match appended {
            Err(error) => Err(error),
            Ok(id) => {
                self.balances.sub_from(account, amount);
                Ok(id)
            },
        }
    }

    /// Moves `amount` from `from` to `to` as one atomic unit: the debit
    /// check and the credit either both happen, together with exactly one
    /// Transfer record, or nothing happens. Self-gated on `from`, which is
    /// the authenticated principal. The sum of all balances is conserved
    /// whether the transfer succeeds or fails.
    pub fn transfer(
        &mut self,
        from: AccountId,
        to: AccountId,
        amount: i128,
        description: String,
        timestamp: u64,
    ) -> (outcome: Result<u64, LedgerError>)
        requires
            old(self).wf(),
        ensures
            spec_transfer_effect(
                *old(self),
                *final(self),
                from,
                to,
                amount,
                description,
                timestamp,
                outcome,
            ),
    {
        if amount <= 0 {
            return Err(LedgerError::InvalidAmount);
        }
        let available = self.balances.get(from);
        if available < amount {
            return Err(LedgerError::InsufficientBalance);
        }
        proof {
            self.lemma_balance_nonnegative(from);
            self.lemma_balance_nonnegative(to);
        }
        let appended = self.journal.append(
            Some(from),
            Some(to),
            amount,
            TransactionType::Transfer,
            description,
            timestamp,
        );
        match appended {
            Err(error) => Err(error),
            Ok(id) => {
                self.balances.sub_from(from, amount);
                proof {
                    self.balances.lemma_balance_bounds(to);
                }
                self.balances.add_to(to, amount);
                Ok(id)
            },
        }
    }

    /// Returns the journal records passing `filter`, in insertion order;
    /// fails only on a filter without defined boundary semantics.
    pub fn query(&self, filter: &RecordFilter) -> (outcome: Result<
        Vec<TransactionRecord>,
        LedgerError,
    >)
        ensures
            !filter.spec_valid() ==> outcome == Err::<Vec<TransactionRecord>, LedgerError>(
                LedgerError::InvalidFilter,
            ),
            filter.spec_valid() ==> (outcome matches Ok(selected) && selected@
                == crate::journal::spec_filter_records(self.records(), *filter)),
    {
        self.journal.query(filter)
    }

    /// Aggregates the journal records passing `filter` into a report
    /// summary; deterministic and read-only.
    pub fn summarize(&self, filter: &RecordFilter) -> (outcome: Result<ReportSummary, LedgerError>)
        requires
            self.wf(),
        ensures
            !filter.spec_valid() ==> outcome == Err::<ReportSummary, LedgerError>(
                LedgerError::InvalidFilter,
            ),
            filter.spec_valid() ==> outcome == Ok::<ReportSummary, LedgerError>(
                spec_summary_of(crate::journal::spec_filter_records(self.records(), *filter)),
            ),
    {
        summarize(&self.journal, filter)
    }
}

} // verus!
