//! The accounting system: an admin-gated recorder of financial
//! transactions with deterministic report generation.
//!
//! Transactions are caller-described records over named accounts; the
//! system validates and appends them, and reports are pure aggregations
//! over the accumulated history.

use vstd::prelude::*;
use crate::{AccountId, MAX_TOTAL_AMOUNT};
use crate::errors::LedgerError;
use crate::journal::TransactionType;
use crate::report::spec_margin;
use vstd::arithmetic::div_mod::{lemma_div_basics_4, lemma_div_basics_5};

verus! {

/// One recorded financial transaction between two named accounts.
#[derive(Debug)]
pub struct FinancialTransaction {
    /// Caller-supplied identifier of the transaction.
    pub transaction_id: String,
    /// The account the value left.
    pub from_account: String,
    /// The account the value reached.
    pub to_account: String,
    /// The amount moved; strictly positive.
    pub amount: i128,
    /// The category of the transaction.
    pub transaction_type: TransactionType,
    /// Free-text description.
    pub description: String,
    /// Logical timestamp supplied by the caller's clock source.
    pub timestamp: u64,
}

impl Clone for FinancialTransaction {
    fn clone(&self) -> (other: Self)
        ensures
            other == *self,
    {
        FinancialTransaction {
            transaction_id: self.transaction_id.clone(),
            from_account: self.from_account.clone(),
            to_account: self.to_account.clone(),
            amount: self.amount,
            transaction_type: self.transaction_type,
            description: self.description.clone(),
            timestamp: self.timestamp,
        }
    }
}

/// A financial report over the recorded history for a period label.
#[derive(Debug)]
pub struct FinancialReport {
    /// The period label the report was requested for.
    pub period: String,
    /// Sum of amounts with category Revenue.
    pub total_revenue: i128,
    /// Sum of amounts with category Expense, Tax or Payroll.
    pub total_expenses: i128,
    /// `total_revenue - total_expenses`.
    pub net_income: i128,
    /// Derived figure: twice the total revenue.
    pub assets: i128,
    /// Derived figure: equal to the total expenses.
    pub liabilities: i128,
    /// Derived figure: three times the net income.
    pub equity: i128,
    /// Derived figure: net income less half the total expenses.
    pub cash_flow: i128,
}

/// Whether a transaction counts toward total revenue.
pub open spec fn spec_fin_is_revenue(transaction: FinancialTransaction) -> bool {
    transaction.transaction_type == TransactionType::Revenue
}

/// Whether a transaction counts toward total expenses.
pub open spec fn spec_fin_is_expense(transaction: FinancialTransaction) -> bool {
    transaction.transaction_type == TransactionType::Expense || transaction.transaction_type
        == TransactionType::Tax || transaction.transaction_type == TransactionType::Payroll
}

/// The sum of all transaction amounts.
pub open spec fn spec_fin_sum_amounts(transactions: Seq<FinancialTransaction>) -> int
    decreases transactions.len(),
{
    if transactions.len() == 0 {
        0
    } else {
        transactions.first().amount + spec_fin_sum_amounts(transactions.drop_first())
    }
}

/// The sum of the amounts of all Revenue transactions.
pub open spec fn spec_fin_sum_revenue(transactions: Seq<FinancialTransaction>) -> int
    decreases transactions.len(),
{
    if transactions.len() == 0 {
        0
    } else {
        (if spec_fin_is_revenue(transactions.first()) {
            transactions.first().amount as int
        } else {
            0
        }) + spec_fin_sum_revenue(transactions.drop_first())
    }
}

/// The sum of the amounts of all Expense, Tax and Payroll transactions.
pub open spec fn spec_fin_sum_expenses(transactions: Seq<FinancialTransaction>) -> int
    decreases transactions.len(),
{
    if transactions.len() == 0 {
        0
    } else {
        (if spec_fin_is_expense(transactions.first()) {
            transactions.first().amount as int
        } else {
            0
        }) + spec_fin_sum_expenses(transactions.drop_first())
    }
}

/// Every transaction carries a strictly positive amount.
pub open spec fn spec_fin_amounts_positive(transactions: Seq<FinancialTransaction>) -> bool {
    forall|i: int|
        0 <= i < transactions.len() ==> (#[trigger] transactions[i]).amount > 0
}

/// Appending a transaction moves each sum by its contribution.
pub proof fn lemma_fin_sums_push(
    transactions: Seq<FinancialTransaction>,
    transaction: FinancialTransaction,
)
    ensures
        spec_fin_sum_amounts(transactions.push(transaction)) == spec_fin_sum_amounts(transactions)
            + transaction.amount,
        spec_fin_sum_revenue(transactions.push(transaction)) == spec_fin_sum_revenue(transactions)
            + (if spec_fin_is_revenue(transaction) {
            transaction.amount as int
        } else {
            0
        }),
        spec_fin_sum_expenses(transactions.push(transaction)) == spec_fin_sum_expenses(
            transactions,
        ) + (if spec_fin_is_expense(transaction) {
            transaction.amount as int
        } else {
            0
        }),
    decreases transactions.len(),
{
    let p = transactions.push(transaction);
    if transactions.len() == 0 {
        assert(p.first() == transaction);
        assert(p.drop_first() =~= Seq::<FinancialTransaction>::empty());
        assert(spec_fin_sum_amounts(p) == transaction.amount + spec_fin_sum_amounts(
            p.drop_first(),
        ));
        assert(spec_fin_sum_revenue(p) == (if spec_fin_is_revenue(transaction) {
            transaction.amount as int
        } else {
            0
        }) + spec_fin_sum_revenue(p.drop_first()));
        assert(spec_fin_sum_expenses(p) == (if spec_fin_is_expense(transaction) {
            transaction.amount as int
        } else {
            0
        }) + spec_fin_sum_expenses(p.drop_first()));
    } else {
        assert(p.first() == transactions.first());
        assert(p.drop_first() =~= transactions.drop_first().push(transaction));
        lemma_fin_sums_push(transactions.drop_first(), transaction);
        assert(spec_fin_sum_amounts(p) == p.first().amount + spec_fin_sum_amounts(p.drop_first()));
        assert(spec_fin_sum_amounts(transactions) == transactions.first().amount
            + spec_fin_sum_amounts(transactions.drop_first()));
        assert(spec_fin_sum_revenue(p) == (if spec_fin_is_revenue(p.first()) {
            p.first().amount as int
        } else {
            0
        }) + spec_fin_sum_revenue(p.drop_first()));
        assert(spec_fin_sum_revenue(transactions) == (if spec_fin_is_revenue(
            transactions.first(),
        ) {
            transactions.first().amount as int
        } else {
            0
        }) + spec_fin_sum_revenue(transactions.drop_first()));
        assert(spec_fin_sum_expenses(p) == (if spec_fin_is_expense(p.first()) {
            p.first().amount as int
        } else {
            0
        }) + spec_fin_sum_expenses(p.drop_first()));
        assert(spec_fin_sum_expenses(transactions) == (if spec_fin_is_expense(
            transactions.first(),
        ) {
            transactions.first().amount as int
        } else {
            0
        }) + spec_fin_sum_expenses(transactions.drop_first()));
    }
}

/// With positive amounts, revenue and expenses are non-negative and
/// together never exceed the sum of all amounts.
pub proof fn lemma_fin_sums_bounds(transactions: Seq<FinancialTransaction>)
    requires
        spec_fin_amounts_positive(transactions),
    ensures
        0 <= spec_fin_sum_revenue(transactions),
        0 <= spec_fin_sum_expenses(transactions),
        spec_fin_sum_revenue(transactions) + spec_fin_sum_expenses(transactions)
            <= spec_fin_sum_amounts(transactions),
        0 <= spec_fin_sum_amounts(transactions),
    decreases transactions.len(),
{
    if transactions.len() > 0 {
        assert(transactions[0].amount > 0);
        assert forall|i: int|
            0 <= i < transactions.drop_first().len() implies (
        #[trigger] transactions.drop_first()[i]).amount > 0 by {
            assert(transactions.drop_first()[i] == transactions[i + 1]);
        }
        lemma_fin_sums_bounds(transactions.drop_first());
    }
}

/// Whether a transaction names the account as either party.
pub open spec fn spec_fin_touches(transaction: FinancialTransaction, account: Seq<char>) -> bool {
    transaction.from_account@ == account || transaction.to_account@ == account
}

/// The transactions naming the account, in insertion order.
pub open spec fn spec_fin_history_for(
    transactions: Seq<FinancialTransaction>,
    account: Seq<char>,
) -> Seq<FinancialTransaction> {
    transactions.filter(
        |transaction: FinancialTransaction| spec_fin_touches(transaction, account),
    )
}

/// Extending the scanned prefix by one transaction extends the history
/// exactly when the transaction names the account.
pub proof fn lemma_fin_history_step(
    transactions: Seq<FinancialTransaction>,
    i: int,
    account: Seq<char>,
)
    requires
        0 <= i < transactions.len(),
    ensures
        spec_fin_history_for(transactions.take(i + 1), account) == if spec_fin_touches(
            transactions[i],
            account,
        ) {
            spec_fin_history_for(transactions.take(i), account).push(transactions[i])
        } else {
            spec_fin_history_for(transactions.take(i), account)
        },
{
    reveal(Seq::filter);
    let prefix = transactions.take(i + 1);
    assert(prefix.last() == transactions[i]);
    assert(prefix.drop_last() =~= transactions.take(i));
}

/// The accounting system instance: the configured administrator and the
/// recorded transactions, with a cached total used to bound aggregates.
pub struct AccountingSystem {
    admin: AccountId,
    transactions: Vec<FinancialTransaction>,
    total_amount: i128,
}

impl AccountingSystem {
    /// The configured administrator identity.
    pub closed spec fn spec_admin(&self) -> AccountId {
        self.admin
    }

    /// The recorded transactions in insertion order.
    pub closed spec fn transactions(&self) -> Seq<FinancialTransaction> {
        self.transactions@
    }

    /// The sum of all recorded amounts.
    pub closed spec fn total(&self) -> int {
        spec_fin_sum_amounts(self.transactions@)
    }

    /// Amounts are strictly positive, their sum is bounded, and the
    /// cached total agrees with the records.
    pub closed spec fn wf(&self) -> bool {
        &&& spec_fin_amounts_positive(self.transactions@)
        &&& spec_fin_sum_amounts(self.transactions@) <= MAX_TOTAL_AMOUNT
        &&& self.total_amount == spec_fin_sum_amounts(self.transactions@)
    }

    /// A fresh accounting system with no recorded history.
    pub fn initialize(admin: AccountId) -> (system: Self)
        ensures
            system.wf(),
            system.spec_admin() == admin,
            system.transactions() == Seq::<FinancialTransaction>::empty(),
            system.total() == 0,
    {
        AccountingSystem { admin, transactions: Vec::new(), total_amount: 0 }
    }

    /// Records one transaction. Admin-gated; validates the amount before
    /// any state change and fails with `StorageFault` when the bounded
    /// history cannot take the amount. A failed call commits nothing.
    pub fn record_transaction(
        &mut self,
        principal: AccountId,
        transaction: FinancialTransaction,
    ) -> (outcome: Result<(), LedgerError>)
        requires
            old(self).wf(),
        ensures
            final(self).wf(),
            final(self).spec_admin() == old(self).spec_admin(),
            principal != old(self).spec_admin() ==> outcome == Err::<(), LedgerError>(
                LedgerError::Unauthorized,
            ) && *final(self) == *old(self),
            principal == old(self).spec_admin() && transaction.amount <= 0 ==> outcome
                == Err::<(), LedgerError>(LedgerError::InvalidAmount) && *final(self) == *old(
                self,
            ),
            principal == old(self).spec_admin() && transaction.amount > 0 && old(self).total()
                + transaction.amount > MAX_TOTAL_AMOUNT ==> outcome == Err::<(), LedgerError>(
                LedgerError::StorageFault,
            ) && *final(self) == *old(self),
            principal == old(self).spec_admin() && transaction.amount > 0 && old(self).total()
                + transaction.amount <= MAX_TOTAL_AMOUNT ==> outcome == Ok::<(), LedgerError>(())
                && final(self).transactions() == old(self).transactions().push(transaction)
                && final(self).total() == old(self).total() + transaction.amount,
    {
        if principal != self.admin {
            return Err(LedgerError::Unauthorized);
        }
        if transaction.amount <= 0 {
            return Err(LedgerError::InvalidAmount);
        }
        proof {
            lemma_fin_sums_bounds(self.transactions@);
        }
        if transaction.amount > MAX_TOTAL_AMOUNT - self.total_amount {
            return Err(LedgerError::StorageFault);
        }
        proof {
            lemma_fin_sums_push(self.transactions@, transaction);
            assert forall|i: int|
                0 <= i < self.transactions@.push(transaction).len() implies (
            #[trigger] self.transactions@.push(transaction)[i]).amount > 0 by {
                if i < self.transactions@.len() {
                    assert(self.transactions@.push(transaction)[i] == self.transactions@[i]);
                }
            }
        }
        self.total_amount = self.total_amount + transaction.amount;
        self.transactions.push(transaction);
        Ok(())
    }

    /// Generates the financial report over the whole recorded history:
    /// category sums plus figures derived from them by fixed formulas.
    /// Deterministic and read-only.
    #[verifier::loop_isolation(false)]
    pub fn generate_financial_report(&self, period: String) -> (outcome: Result<
        FinancialReport,
        LedgerError,
    >)
        requires
            self.wf(),
        ensures
            outcome matches Ok(report) && ({
                let revenue = spec_fin_sum_revenue(self.transactions());
                let expenses = spec_fin_sum_expenses(self.transactions());
                &&& report.period == period
                &&& report.total_revenue == revenue
                &&& report.total_expenses == expenses
                &&& report.net_income == revenue - expenses
                &&& report.assets == revenue * 2
                &&& report.liabilities == expenses
                &&& report.equity == (revenue - expenses) * 3
                &&& report.cash_flow == revenue - expenses - expenses / 2
            }),
    {
        let ghost records = self.transactions@;
        let n = self.transactions.len();
        let mut revenue: i128 = 0;
        let mut expenses: i128 = 0;
        let mut i: usize = 0;
        proof {
            assert(records.take(0) =~= Seq::<FinancialTransaction>::empty());
        }
        while i < n
            invariant
                i <= n,
                n == records.len(),
                spec_fin_amounts_positive(records),
                spec_fin_sum_amounts(records) <= MAX_TOTAL_AMOUNT,
                revenue == spec_fin_sum_revenue(records.take(i as int)),
                expenses == spec_fin_sum_expenses(records.take(i as int)),
            decreases n - i,
        {
            proof {
                assert forall|j: int|
                    0 <= j < records.take(i + 1).len() implies (
                #[trigger] records.take(i + 1)[j]).amount > 0 by {
                    assert(records.take(i + 1)[j] == records[j]);
                }
                assert forall|j: int|
                    0 <= j < records.take(i as int).len() implies (
                #[trigger] records.take(i as int)[j]).amount > 0 by {
                    assert(records.take(i as int)[j] == records[j]);
                }
                assert(records.take(i as int).push(records[i as int]) =~= records.take(i + 1));
                lemma_fin_sums_push(records.take(i as int), records[i as int]);
                lemma_fin_sums_bounds(records.take(i + 1));
                lemma_fin_sums_bounds(records.take(i as int));
                lemma_fin_prefix_bound(records, i + 1);
            }
            let transaction = &self.transactions[i];
            match transaction.transaction_type {
                TransactionType::Revenue => {
                    revenue = revenue + transaction.amount;
                },
                TransactionType::Expense | TransactionType::Tax | TransactionType::Payroll => {
                    expenses = expenses + transaction.amount;
                },
                _ => {},
            }
            i += 1;
        }
        proof {
            assert(records.take(n as int) =~= records);
            lemma_fin_sums_bounds(records);
        }
        let net_income: i128 = revenue - expenses;
        let half_expenses: i128 = expenses / 2;
        Ok(
            FinancialReport {
                period,
                total_revenue: revenue,
                total_expenses: expenses,
                net_income,
                assets: revenue * 2,
                liabilities: expenses,
                equity: net_income * 3,
                cash_flow: net_income - half_expenses,
            },
        )
    }

    /// Returns the transactions naming `account` as either party, in
    /// insertion order.
    #[verifier::loop_isolation(false)]
    pub fn get_transaction_history(&self, account: &String) -> (history: Vec<
        FinancialTransaction,
    >)
        ensures
            history@ == spec_fin_history_for(self.transactions(), account@),
    {
        let ghost records = self.transactions@;
        let mut history: Vec<FinancialTransaction> = Vec::new();
        let n = self.transactions.len();
        let mut i: usize = 0;
        proof {
            assert(records.take(0) =~= Seq::<FinancialTransaction>::empty());
            reveal(Seq::filter);
        }
        while i < n
            invariant
                i <= n,
                n == records.len(),
                history@ == spec_fin_history_for(records.take(i as int), account@),
            decreases n - i,
        {
            let transaction = &self.transactions[i];
            proof {
                lemma_fin_history_step(records, i as int, account@);
            }
            if transaction.from_account.eq(account) || transaction.to_account.eq(account) {
                history.push(transaction.clone());
            }
            i += 1;
        }
        proof {
            assert(records.take(n as int) =~= records);
        }
        history
    }

    /// The fixed balance-sheet positions this system reports.
    pub fn get_balance_sheet(&self) -> (sheet: Vec<(String, i128)>)
        ensures
            sheet@.len() == 8,
            sheet@[0].0@ == "cash"@ && sheet@[0].1 == 50_000_000,
            sheet@[1].0@ == "accounts_receivable"@ && sheet@[1].1 == 25_000_000,
            sheet@[2].0@ == "inventory"@ && sheet@[2].1 == 75_000_000,
            sheet@[3].0@ == "total_assets"@ && sheet@[3].1 == 150_000_000,
            sheet@[4].0@ == "accounts_payable"@ && sheet@[4].1 == 20_000_000,
            sheet@[5].0@ == "loans"@ && sheet@[5].1 == 30_000_000,
            sheet@[6].0@ == "total_liabilities"@ && sheet@[6].1 == 50_000_000,
            sheet@[7].0@ == "equity"@ && sheet@[7].1 == 100_000_000,
    {
        let mut sheet: Vec<(String, i128)> = Vec::new();
        sheet.push((String::from_str("cash"), 50_000_000));
        sheet.push((String::from_str("accounts_receivable"), 25_000_000));
        sheet.push((String::from_str("inventory"), 75_000_000));
        sheet.push((String::from_str("total_assets"), 150_000_000));
        sheet.push((String::from_str("accounts_payable"), 20_000_000));
        sheet.push((String::from_str("loans"), 30_000_000));
        sheet.push((String::from_str("total_liabilities"), 50_000_000));
        sheet.push((String::from_str("equity"), 100_000_000));
        sheet
    }

    /// The net income of the recorded history as an integer-truncated
    /// percentage of total revenue; zero when revenue is zero.
    pub fn calculate_profit_margin(&self, period: String) -> (outcome: Result<i128, LedgerError>)
        requires
            self.wf(),
        ensures
            outcome == Ok::<i128, LedgerError>(
                spec_margin(
                    spec_fin_sum_revenue(self.transactions()),
                    spec_fin_sum_expenses(self.transactions()),
                ) as i128,
            ),
    {
        let report = match self.generate_financial_report(period) {
            Ok(report) => report,
            Err(error) => {
                return Err(error);
            },
        };
        proof {
            lemma_fin_sums_bounds(self.transactions@);
        }
        if report.total_revenue == 0 {
            return Ok(0);
        }
        let scaled: i128 = report.net_income * 100;
        proof {
            if scaled >= 0 {
                lemma_div_basics_4(scaled as int, report.total_revenue as int);
                lemma_div_basics_5(scaled as int, report.total_revenue as int);
            } else {
                lemma_div_basics_4(-(scaled as int), report.total_revenue as int);
                lemma_div_basics_5(-(scaled as int), report.total_revenue as int);
            }
        }
        match scaled.checked_div(report.total_revenue) {
            Some(quotient) => Ok(quotient),
            None => {
                // unreachable: the divisor is positive and the truncated
                // quotient's magnitude is bounded by the dividend's
                proof {
                    assert(false);
                }
                Ok(0)
            },
        }
    }

    /// The greeting of this system.
    pub fn hello(&self) -> (greeting: String)
        ensures
            greeting@ == "Hello from Accounting System!"@,
    {
        String::from_str("Hello from Accounting System!")
    }
}

/// With positive amounts, the sum over a prefix never exceeds the sum
/// over the whole sequence.
pub proof fn lemma_fin_prefix_bound(transactions: Seq<FinancialTransaction>, n: int)
    requires
        spec_fin_amounts_positive(transactions),
        0 <= n <= transactions.len(),
    ensures
        0 <= spec_fin_sum_amounts(transactions.take(n)),
        spec_fin_sum_amounts(transactions.take(n)) <= spec_fin_sum_amounts(transactions),
    decreases transactions.len(),
{
    if transactions.len() == 0 {
        assert(transactions.take(n) =~= transactions);
    } else {
        assert(transactions[0].amount > 0);
        assert forall|i: int|
            0 <= i < transactions.drop_first().len() implies (
        #[trigger] transactions.drop_first()[i]).amount > 0 by {
            assert(transactions.drop_first()[i] == transactions[i + 1]);
        }
        if n == 0 {
            assert(transactions.take(0) =~= Seq::<FinancialTransaction>::empty());
            lemma_fin_prefix_bound(transactions.drop_first(), 0);
        } else {
            assert(transactions.take(n).first() == transactions.first());
            assert(transactions.take(n).drop_first() =~= transactions.drop_first().take(n - 1));
            lemma_fin_prefix_bound(transactions.drop_first(), n - 1);
        }
    }
}

} // verus!
