//! The transaction journal: an append-only, ordered log of immutable
//! value-moving events.
//!
//! Append is the only mutation. Records carry a sequence number assigned by
//! the journal itself (insertion order), strictly positive amounts, and a
//! caller-supplied logical timestamp. Queries never mutate and are
//! deterministic: the same filter over an unchanged journal yields the
//! identical sequence.

use vstd::prelude::*;
use crate::{AccountId, MAX_TOTAL_AMOUNT};
use crate::errors::LedgerError;

verus! {

/// The closed set of categories a journal record can carry. Direction is
/// encoded by the category and the origin/destination pair, never by the
/// sign of the amount.
#[derive(Clone, Copy, Debug, PartialEq, Eq, Structural)]
pub enum TransactionType {
    Revenue,
    Expense,
    Transfer,
    Tax,
    Payroll,
    Investment,
    Refund,
}

/// One immutable journal entry. The origin may be absent for an external
/// deposit (minting) and the destination may be absent for a pure
/// withdrawal.
#[derive(Debug)]
pub struct TransactionRecord {
    /// Sequence number assigned by the journal: the record's position in
    /// insertion order.
    pub id: u64,
    /// The account the value left, absent for system-originated events.
    pub origin: Option<AccountId>,
    /// The account the value reached, absent for pure withdrawals.
    pub destination: Option<AccountId>,
    /// The amount moved; strictly positive at the record level.
    pub amount: i128,
    /// The category of the event.
    pub category: TransactionType,
    /// Free-text description supplied by the caller.
    pub description: String,
    /// Logical timestamp supplied by the caller's clock source.
    pub timestamp: u64,
}

impl Clone for TransactionRecord {
    fn clone(&self) -> (other: Self)
        ensures
            other == *self,
    {
        TransactionRecord {
            id: self.id,
            origin: self.origin,
            destination: self.destination,
            amount: self.amount,
            category: self.category,
            description: self.description.clone(),
            timestamp: self.timestamp,
        }
    }
}

/// The sum of the amounts of all records in the sequence.
pub open spec fn spec_sum_amounts(records: Seq<TransactionRecord>) -> int
    decreases records.len(),
{
    if records.len() == 0 {
        0
    } else {
        records.first().amount + spec_sum_amounts(records.drop_first())
    }
}

/// Every record carries a strictly positive amount.
pub open spec fn spec_amounts_positive(records: Seq<TransactionRecord>) -> bool {
    forall|i: int| 0 <= i < records.len() ==> (#[trigger] records[i]).amount > 0
}

/// Every record's sequence number is its position in insertion order.
pub open spec fn spec_ids_sequential(records: Seq<TransactionRecord>) -> bool {
    forall|i: int| 0 <= i < records.len() ==> (#[trigger] records[i]).id == i
}

/// Appending a record adds its amount to the sum.
pub proof fn lemma_sum_amounts_push(records: Seq<TransactionRecord>, record: TransactionRecord)
    ensures
        spec_sum_amounts(records.push(record)) == spec_sum_amounts(records) + record.amount,
    decreases records.len(),
{
    let p = records.push(record);
    if records.len() == 0 {
        assert(p.first() == record);
        assert(p.drop_first() =~= Seq::<TransactionRecord>::empty());
        assert(spec_sum_amounts(p) == record.amount + spec_sum_amounts(p.drop_first()));
    } else {
        assert(p.first() == records.first());
        assert(p.drop_first() =~= records.drop_first().push(record));
        lemma_sum_amounts_push(records.drop_first(), record);
        assert(spec_sum_amounts(p) == p.first().amount + spec_sum_amounts(p.drop_first()));
        assert(spec_sum_amounts(records) == records.first().amount + spec_sum_amounts(
            records.drop_first(),
        ));
    }
}

/// With positive amounts, the sum over a prefix never exceeds the sum over
/// the whole sequence, and neither is negative.
pub proof fn lemma_sum_amounts_prefix(records: Seq<TransactionRecord>, n: int)
    requires
        spec_amounts_positive(records),
        0 <= n <= records.len(),
    ensures
        0 <= spec_sum_amounts(records.take(n)),
        spec_sum_amounts(records.take(n)) <= spec_sum_amounts(records),
    decreases records.len(),
{
    if records.len() == 0 {
        assert(records.take(n) =~= records);
    } else {
        assert(records[0].amount > 0);
        assert forall|i: int|
            0 <= i < records.drop_first().len() implies (
        #[trigger] records.drop_first()[i]).amount > 0 by {
            assert(records.drop_first()[i] == records[i + 1]);
        }
        if n == 0 {
            assert(records.take(0) =~= Seq::<TransactionRecord>::empty());
            lemma_sum_amounts_prefix(records.drop_first(), 0);
        } else {
            assert(records.take(n).first() == records.first());
            assert(records.take(n).drop_first() =~= records.drop_first().take(n - 1));
            lemma_sum_amounts_prefix(records.drop_first(), n - 1);
        }
    }
}

/// A filter over journal records: an account that must appear as origin or
/// destination, a category, and an inclusive timestamp range. Every bound
/// is optional; an absent bound admits everything.
#[derive(Clone, Copy, Debug, PartialEq, Eq, Structural)]
pub struct RecordFilter {
    /// Admit only records where this account is the origin or destination.
    pub account: Option<AccountId>,
    /// Admit only records of this category.
    pub category: Option<TransactionType>,
    /// Admit only records with timestamp at or after this bound.
    pub from_time: Option<u64>,
    /// Admit only records with timestamp at or before this bound.
    pub to_time: Option<u64>,
}

impl RecordFilter {
    /// A filter with no bounds: admits every record.
    pub fn all() -> (filter: Self)
        ensures
            filter == (RecordFilter {
                account: None,
                category: None,
                from_time: None,
                to_time: None,
            }),
    {
        RecordFilter { account: None, category: None, from_time: None, to_time: None }
    }

    /// A timestamp range is well defined when its lower bound does not
    /// exceed its upper bound; other bounds are always well defined.
    pub open spec fn spec_valid(self) -> bool {
        match (self.from_time, self.to_time) {
            (Some(lo), Some(hi)) => lo <= hi,
            _ => true,
        }
    }

    /// Checks that the filter has defined boundary semantics.
    pub fn is_valid(&self) -> (valid: bool)
        ensures
            valid == self.spec_valid(),
    {
        match (self.from_time, self.to_time) {
            (Some(lo), Some(hi)) => lo <= hi,
            _ => true,
        }
    }
}

/// Whether a record passes a filter.
pub open spec fn spec_matches(record: TransactionRecord, filter: RecordFilter) -> bool {
    &&& match filter.account {
        Some(a) => record.origin == Some(a) || record.destination == Some(a),
        None => true,
    }
    &&& match filter.category {
        Some(c) => record.category == c,
        None => true,
    }
    &&& match filter.from_time {
        Some(lo) => lo <= record.timestamp,
        None => true,
    }
    &&& match filter.to_time {
        Some(hi) => record.timestamp <= hi,
        None => true,
    }
}

/// The after-sequence extends the before-sequence by exactly one record
/// with the given parties, amount, category, description and timestamp —
/// the shape of every successful mutation of a journalled store.
pub open spec fn spec_appended_record(
    before: Seq<TransactionRecord>,
    after: Seq<TransactionRecord>,
    origin: Option<AccountId>,
    destination: Option<AccountId>,
    amount: i128,
    category: TransactionType,
    description: Seq<char>,
    timestamp: u64,
) -> bool {
    &&& after.len() == before.len() + 1
    &&& after.take(before.len() as int) == before
    &&& after.last().id == before.len() as u64
    &&& after.last().origin == origin
    &&& after.last().destination == destination
    &&& after.last().amount == amount
    &&& after.last().category == category
    &&& after.last().description@ == description
    &&& after.last().timestamp == timestamp
}

/// The subsequence of `records` passing `filter`, in insertion order.
pub open spec fn spec_filter_records(
    records: Seq<TransactionRecord>,
    filter: RecordFilter,
) -> Seq<TransactionRecord> {
    records.filter(|record: TransactionRecord| spec_matches(record, filter))
}

/// Extending the scanned prefix by one record extends the filtered
/// subsequence exactly when the record matches.
pub proof fn lemma_filter_records_step(
    records: Seq<TransactionRecord>,
    i: int,
    filter: RecordFilter,
)
    requires
        0 <= i < records.len(),
    ensures
        spec_filter_records(records.take(i + 1), filter) == if spec_matches(records[i], filter) {
            spec_filter_records(records.take(i), filter).push(records[i])
        } else {
            spec_filter_records(records.take(i), filter)
        },
{
    reveal(Seq::filter);
    let prefix = records.take(i + 1);
    assert(prefix.last() == records[i]);
    assert(prefix.drop_last() =~= records.take(i));
}

/// The append-only journal, with a cached running total of all amounts
/// used to refuse mutations that would overflow any aggregate.
pub struct Journal {
    records: Vec<TransactionRecord>,
    total_amount: i128,
}

impl Journal {
    /// The records in insertion order.
    pub closed spec fn records(&self) -> Seq<TransactionRecord> {
        self.records@
    }

    /// The sum of all record amounts.
    pub closed spec fn total(&self) -> int {
        spec_sum_amounts(self.records@)
    }

    /// Record ids are their insertion positions, amounts are strictly
    /// positive, their sum stays within bounds, and the cached total
    /// agrees with the records.
    pub closed spec fn wf(&self) -> bool {
        &&& spec_ids_sequential(self.records@)
        &&& spec_amounts_positive(self.records@)
        &&& spec_sum_amounts(self.records@) <= MAX_TOTAL_AMOUNT
        &&& self.total_amount == spec_sum_amounts(self.records@)
    }

    /// Law: in a well-formed journal every amount is positive and the
    /// total is bounded.
    pub proof fn lemma_wf_facts(&self)
        requires
            self.wf(),
        ensures
            spec_amounts_positive(self.records()),
            spec_ids_sequential(self.records()),
            self.total() == spec_sum_amounts(self.records()),
            0 <= self.total() <= MAX_TOTAL_AMOUNT,
    {
        lemma_sum_amounts_prefix(self.records@, self.records@.len() as int);
        assert(self.records@.take(self.records@.len() as int) =~= self.records@);
    }

    /// An empty journal.
    pub fn new() -> (journal: Self)
        ensures
            journal.wf(),
            journal.records() == Seq::<TransactionRecord>::empty(),
            journal.total() == 0,
    {
        Journal { records: Vec::new(), total_amount: 0 }
    }

    /// How many records the journal holds.
    pub fn len(&self) -> (count: usize)
        ensures
            count == self.records().len(),
    {
        self.records.len()
    }

    /// Reads the sum of all record amounts.
    pub fn total_recorded(&self) -> (total: i128)
        requires
            self.wf(),
        ensures
            total == self.total(),
    {
        self.total_amount
    }

    /// Appends one record, assigning it the next sequence number, and
    /// returns that number. Fails with `InvalidAmount` on a non-positive
    /// amount and with `StorageFault` when the journal's bounded storage
    /// cannot take the amount; a failed append commits nothing.
    pub fn append(
        &mut self,
        origin: Option<AccountId>,
        destination: Option<AccountId>,
        amount: i128,
        category: TransactionType,
        description: String,
        timestamp: u64,
    ) -> (outcome: Result<u64, LedgerError>)
        requires
            old(self).wf(),
        ensures
            final(self).wf(),
            amount <= 0 ==> outcome == Err::<u64, LedgerError>(LedgerError::InvalidAmount)
                && *final(self) == *old(self),
            amount > 0 && old(self).total() + amount > MAX_TOTAL_AMOUNT ==> outcome
                == Err::<u64, LedgerError>(LedgerError::StorageFault) && *final(self) == *old(
                self,
            ),
            amount > 0 && old(self).total() + amount <= MAX_TOTAL_AMOUNT ==> {
                &&& outcome == Ok::<u64, LedgerError>(old(self).records().len() as u64)
                &&& final(self).records() == old(self).records().push(
                    (TransactionRecord {
                        id: old(self).records().len() as u64,
                        origin,
                        destination,
                        amount,
                        category,
                        description,
                        timestamp,
                    }),
                )
                &&& final(self).total() == old(self).total() + amount
            },
    {
        if amount <= 0 {
            return Err(LedgerError::InvalidAmount);
        }
        proof {
            self.lemma_wf_facts();
        }
        if amount > MAX_TOTAL_AMOUNT - self.total_amount {
            return Err(LedgerError::StorageFault);
        }
        let id: u64 = self.records.len() as u64;
        let record = TransactionRecord {
            id,
            origin,
            destination,
            amount,
            category,
            description,
            timestamp,
        };
        proof {
            lemma_sum_amounts_push(self.records@, record);
        }
        self.records.push(record);
        self.total_amount = self.total_amount + amount;
        Ok(id)
    }

    /// Returns the records passing `filter`, in insertion order. Fails
    /// only when the filter's timestamp range has no defined boundary
    /// semantics; the journal itself is never touched.
    pub fn query(&self, filter: &RecordFilter) -> (outcome: Result<
        Vec<TransactionRecord>,
        LedgerError,
    >)
        ensures
            !filter.spec_valid() ==> outcome == Err::<Vec<TransactionRecord>, LedgerError>(
                LedgerError::InvalidFilter,
            ),
            filter.spec_valid() ==> (outcome matches Ok(selected) && selected@
                == spec_filter_records(self.records(), *filter)),
    {
        if !filter.is_valid() {
            return Err(LedgerError::InvalidFilter);
        }
        let mut selected: Vec<TransactionRecord> = Vec::new();
        let n = self.records.len();
        let mut i: usize = 0;
        proof {
            assert(self.records@.take(0) =~= Seq::<TransactionRecord>::empty());
            reveal(Seq::filter);
        }
        while i < n
            invariant
                n == self.records@.len(),
                i <= n,
                filter.spec_valid(),
                selected@ == spec_filter_records(self.records@.take(i as int), *filter),
            decreases n - i,
        {
            let record = &self.records[i];
            let keep = record_matches(record, filter);
            proof {
                lemma_filter_records_step(self.records@, i as int, *filter);
            }
            if keep {
                selected.push(record.clone());
            }
            i += 1;
        }
        proof {
            assert(self.records@.take(n as int) =~= self.records@);
        }
        Ok(selected)
    }
}

/// Checks one record against a filter.
pub fn record_matches(record: &TransactionRecord, filter: &RecordFilter) -> (keep: bool)
    ensures
        keep == spec_matches(*record, *filter),
{
    let account_ok = match filter.account {
        Some(a) => {
            let origin_ok = match record.origin {
                Some(o) => o == a,
                None => false,
            };
            let destination_ok = match record.destination {
                Some(d) => d == a,
                None => false,
            };
            origin_ok || destination_ok
        },
        None => true,
    };
    let category_ok = match filter.category {
        Some(c) => record.category == c,
        None => true,
    };
    let from_ok = match filter.from_time {
        Some(lo) => lo <= record.timestamp,
        None => true,
    };
    let to_ok = match filter.to_time {
        Some(hi) => record.timestamp <= hi,
        None => true,
    };
    account_ok && category_ok && from_ok && to_ok
}

} // verus!
