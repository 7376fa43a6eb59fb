//! The aggregation engine: deterministic, side-effect-free reporting over
//! the journal.
//!
//! A report sums amounts per category over the filtered records and derives
//! the secondary figures by fixed formulas: revenue is the Revenue
//! category; expenses are Expense, Tax and Payroll; net income is their
//! difference; and the margin is net income as an integer-truncated
//! percentage of revenue, defined as zero when revenue is zero (a
//! deliberate policy, not an error). Identical journal state and arguments
//! always yield an identical report.

use vstd::prelude::*;
use vstd::arithmetic::div_mod::{lemma_div_basics_4, lemma_div_basics_5};
use crate::MAX_TOTAL_AMOUNT;
use crate::errors::LedgerError;
use crate::journal::{
    spec_amounts_positive, spec_filter_records, spec_sum_amounts, Journal, RecordFilter,
    TransactionRecord, TransactionType,
};

verus! {

/// An immutable report over a filtered view of the journal.
#[derive(Clone, Copy, Debug, PartialEq, Eq, Structural)]
pub struct ReportSummary {
    /// Sum of amounts with category Revenue.
    pub total_revenue: i128,
    /// Sum of amounts with category Expense, Tax or Payroll.
    pub total_expenses: i128,
    /// `total_revenue - total_expenses`.
    pub net_income: i128,
    /// Net income as an integer-truncated percentage of revenue; zero when
    /// revenue is zero.
    pub margin: i128,
}

/// Whether a record counts toward total revenue.
pub open spec fn spec_is_revenue(record: TransactionRecord) -> bool {
    record.category == TransactionType::Revenue
}

/// Whether a record counts toward total expenses.
pub open spec fn spec_is_expense(record: TransactionRecord) -> bool {
    record.category == TransactionType::Expense || record.category == TransactionType::Tax
        || record.category == TransactionType::Payroll
}

/// The sum of the amounts of all Revenue records.
pub open spec fn spec_sum_revenue(records: Seq<TransactionRecord>) -> int
    decreases records.len(),
{
    if records.len() == 0 {
        0
    } else {
        (if spec_is_revenue(records.first()) {
            records.first().amount as int
        } else {
            0
        }) + spec_sum_revenue(records.drop_first())
    }
}

/// The sum of the amounts of all Expense, Tax and Payroll records.
pub open spec fn spec_sum_expenses(records: Seq<TransactionRecord>) -> int
    decreases records.len(),
{
    if records.len() == 0 {
        0
    } else {
        (if spec_is_expense(records.first()) {
            records.first().amount as int
        } else {
            0
        }) + spec_sum_expenses(records.drop_first())
    }
}

/// Integer division truncated toward zero, for a positive divisor.
pub open spec fn spec_div_trunc(dividend: int, divisor: int) -> int {
    if dividend >= 0 {
        dividend / divisor
    } else {
        -((-dividend) / divisor)
    }
}

/// The margin formula: net income times one hundred, divided by revenue
/// and truncated toward zero; zero when revenue is zero.
pub open spec fn spec_margin(total_revenue: int, total_expenses: int) -> int {
    if total_revenue == 0 {
        0
    } else {
        spec_div_trunc((total_revenue - total_expenses) * 100, total_revenue)
    }
}

/// The report over a sequence of (already filtered) records.
pub open spec fn spec_summary_of(records: Seq<TransactionRecord>) -> ReportSummary {
    let revenue = spec_sum_revenue(records);
    let expenses = spec_sum_expenses(records);
    (ReportSummary {
        total_revenue: revenue as i128,
        total_expenses: expenses as i128,
        net_income: (revenue - expenses) as i128,
        margin: spec_margin(revenue, expenses) as i128,
    })
}

/// Appending a record moves the revenue sum by its amount exactly when it
/// is a Revenue record, and likewise for the expense sum.
pub proof fn lemma_category_sums_push(records: Seq<TransactionRecord>, record: TransactionRecord)
    ensures
        spec_sum_revenue(records.push(record)) == spec_sum_revenue(records) + (
        if spec_is_revenue(record) {
            record.amount as int
        } else {
            0
        }),
        spec_sum_expenses(records.push(record)) == spec_sum_expenses(records) + (
        if spec_is_expense(record) {
            record.amount as int
        } else {
            0
        }),
    decreases records.len(),
{
    let p = records.push(record);
    if records.len() == 0 {
        assert(p.first() == record);
        assert(p.drop_first() =~= Seq::<TransactionRecord>::empty());
        assert(spec_sum_revenue(p) == (if spec_is_revenue(record) {
            record.amount as int
        } else {
            0
        }) + spec_sum_revenue(p.drop_first()));
        assert(spec_sum_expenses(p) == (if spec_is_expense(record) {
            record.amount as int
        } else {
            0
        }) + spec_sum_expenses(p.drop_first()));
    } else {
        assert(p.first() == records.first());
        assert(p.drop_first() =~= records.drop_first().push(record));
        lemma_category_sums_push(records.drop_first(), record);
        assert(spec_sum_revenue(p) == (if spec_is_revenue(p.first()) {
            p.first().amount as int
        } else {
            0
        }) + spec_sum_revenue(p.drop_first()));
        assert(spec_sum_revenue(records) == (if spec_is_revenue(records.first()) {
            records.first().amount as int
        } else {
            0
        }) + spec_sum_revenue(records.drop_first()));
        assert(spec_sum_expenses(p) == (if spec_is_expense(p.first()) {
            p.first().amount as int
        } else {
            0
        }) + spec_sum_expenses(p.drop_first()));
        assert(spec_sum_expenses(records) == (if spec_is_expense(records.first()) {
            records.first().amount as int
        } else {
            0
        }) + spec_sum_expenses(records.drop_first()));
    }
}

/// With positive amounts, revenue and expenses are non-negative and
/// together never exceed the sum of all amounts.
pub proof fn lemma_category_sums_bounds(records: Seq<TransactionRecord>)
    requires
        spec_amounts_positive(records),
    ensures
        0 <= spec_sum_revenue(records),
        0 <= spec_sum_expenses(records),
        spec_sum_revenue(records) + spec_sum_expenses(records) <= spec_sum_amounts(records),
    decreases records.len(),
{
    if records.len() > 0 {
        assert(records[0].amount > 0);
        assert forall|i: int|
            0 <= i < records.drop_first().len() implies (
        #[trigger] records.drop_first()[i]).amount > 0 by {
            assert(records.drop_first()[i] == records[i + 1]);
        }
        lemma_category_sums_bounds(records.drop_first());
    }
}

/// Filtering keeps amounts positive and never increases the sum of
/// amounts.
pub proof fn lemma_filter_records_bounds(records: Seq<TransactionRecord>, filter: RecordFilter)
    requires
        spec_amounts_positive(records),
    ensures
        spec_amounts_positive(spec_filter_records(records, filter)),
        spec_sum_amounts(spec_filter_records(records, filter)) <= spec_sum_amounts(records),
    decreases records.len(),
{
    reveal(Seq::filter);
    if records.len() > 0 {
        let last = records.last();
        let rest = records.drop_last();
        assert forall|i: int|
            0 <= i < rest.len() implies (#[trigger] rest[i]).amount > 0 by {
            assert(rest[i] == records[i]);
        }
        lemma_filter_records_bounds(rest, filter);
        assert(records[records.len() - 1].amount > 0);
        let filtered_rest = spec_filter_records(rest, filter);
        if crate::journal::spec_matches(last, filter) {
            assert(spec_filter_records(records, filter) == filtered_rest.push(last));
            crate::journal::lemma_sum_amounts_push(filtered_rest, last);
            assert forall|i: int|
                0 <= i < filtered_rest.push(last).len() implies (
            #[trigger] filtered_rest.push(last)[i]).amount > 0 by {
                if i < filtered_rest.len() {
                    assert(filtered_rest.push(last)[i] == filtered_rest[i]);
                } else {
                    assert(filtered_rest.push(last)[i] == last);
                }
            }
            // the sum over the rest is bounded by the sum over all but the
            // last record, and adding the last record's amount to both
            // sides keeps the bound
            assert(spec_sum_amounts(records) == spec_sum_amounts(rest) + last.amount) by {
                assert(rest.push(last) =~= records);
                crate::journal::lemma_sum_amounts_push(rest, last);
            }
        } else {
            assert(spec_filter_records(records, filter) == filtered_rest);
            assert(spec_sum_amounts(records) == spec_sum_amounts(rest) + last.amount) by {
                assert(rest.push(last) =~= records);
                crate::journal::lemma_sum_amounts_push(rest, last);
            }
        }
    } else {
        assert(spec_filter_records(records, filter) =~= records);
    }
}

/// Law: reporting is idempotent. The summary is a pure function of the
/// journal records and the filter, so two calls with the same filter over
/// an unchanged journal return identical reports.
pub proof fn lemma_summarize_deterministic(
    records: Seq<TransactionRecord>,
    filter: RecordFilter,
    first_report: ReportSummary,
    second_report: ReportSummary,
)
    requires
        first_report == spec_summary_of(spec_filter_records(records, filter)),
        second_report == spec_summary_of(spec_filter_records(records, filter)),
    ensures
        first_report == second_report,
{
}

/// Aggregates the journal records passing `filter` into a report. Never
/// mutates anything; fails only on a filter without defined boundary
/// semantics.
#[verifier::loop_isolation(false)]
pub fn summarize(journal: &Journal, filter: &RecordFilter) -> (outcome: Result<
    ReportSummary,
    LedgerError,
>)
    requires
        journal.wf(),
    ensures
        !filter.spec_valid() ==> outcome == Err::<ReportSummary, LedgerError>(
            LedgerError::InvalidFilter,
        ),
        filter.spec_valid() ==> outcome == Ok::<ReportSummary, LedgerError>(
            spec_summary_of(spec_filter_records(journal.records(), *filter)),
        ),
{
    let selected = match journal.query(filter) {
        Ok(selected) => selected,
        Err(error) => {
            return Err(error);
        },
    };
    proof {
        journal.lemma_wf_facts();
        lemma_filter_records_bounds(journal.records(), *filter);
    }
    let ghost records = selected@;
    let n = selected.len();
    let mut revenue: i128 = 0;
    let mut expenses: i128 = 0;
    let mut i: usize = 0;
    proof {
        assert(records.take(0) =~= Seq::<TransactionRecord>::empty());
    }
    while i < n
        invariant
            i <= n,
            n == records.len(),
            spec_amounts_positive(records),
            spec_sum_amounts(records) <= MAX_TOTAL_AMOUNT,
            revenue == spec_sum_revenue(records.take(i as int)),
            expenses == spec_sum_expenses(records.take(i as int)),
        decreases n - i,
    {
        proof {
            assert(spec_amounts_positive(records.take(i + 1))) by {
                assert forall|j: int|
                    0 <= j < records.take(i + 1).len() implies (
                #[trigger] records.take(i + 1)[j]).amount > 0 by {
                    assert(records.take(i + 1)[j] == records[j]);
                }
            }
            assert(spec_amounts_positive(records.take(i as int))) by {
                assert forall|j: int|
                    0 <= j < records.take(i as int).len() implies (
                #[trigger] records.take(i as int)[j]).amount > 0 by {
                    assert(records.take(i as int)[j] == records[j]);
                }
            }
            assert(records.take(i as int).push(records[i as int]) =~= records.take(i + 1));
            lemma_category_sums_push(records.take(i as int), records[i as int]);
            crate::journal::lemma_sum_amounts_prefix(records, i + 1);
            lemma_category_sums_bounds(records.take(i + 1));
            lemma_category_sums_bounds(records.take(i as int));
            assert(records[i as int].amount > 0);
        }
        let record = &selected[i];
        match record.category {
            TransactionType::Revenue => {
                revenue = revenue + record.amount;
            },
            TransactionType::Expense | TransactionType::Tax | TransactionType::Payroll => {
                expenses = expenses + record.amount;
            },
            _ => {},
        }
        i += 1;
    }
    proof {
        assert(records.take(n as int) =~= records);
        lemma_category_sums_bounds(records);
    }
    let net_income: i128 = revenue - expenses;
    let margin: i128 = if revenue == 0 {
        0
    } else {
        let scaled: i128 = net_income * 100;
        proof {
            if scaled >= 0 {
                lemma_div_basics_4(scaled as int, revenue as int);
                lemma_div_basics_5(scaled as int, revenue as int);
            } else {
                lemma_div_basics_4(-(scaled as int), revenue as int);
                lemma_div_basics_5(-(scaled as int), revenue as int);
            }
        }
        match scaled.checked_div(revenue) {
            Some(quotient) => quotient,
            None => {
                // unreachable: the divisor is positive and the truncated
                // quotient's magnitude is bounded by the dividend's
                proof {
                    assert(false);
                }
                0
            },
        }
    };
    Ok(ReportSummary { total_revenue: revenue, total_expenses: expenses, net_income, margin })
}

} // verus!
