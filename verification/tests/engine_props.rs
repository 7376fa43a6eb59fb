use ledger_engine::engine::LedgerEngine;
use ledger_engine::errors::LedgerError;
use ledger_engine::journal::{Journal, RecordFilter, TransactionType};
use ledger_engine::report::summarize;
use ledger_engine::tier::{classify_spend, CustomerTier};
use ledger_engine::MAX_TOTAL_AMOUNT;

const ADMIN: u64 = 1;
const ACCOUNT_A: u64 = 10;
const ACCOUNT_B: u64 = 11;

fn filter_all() -> RecordFilter {
    RecordFilter::all()
}

#[test]
fn credit_creates_balance_and_one_record() {
    let mut engine = LedgerEngine::initialize(ADMIN);
    let outcome = engine.credit(
        ADMIN,
        ACCOUNT_A,
        100,
        TransactionType::Revenue,
        String::from("deposit"),
        5,
    );
    assert_eq!(outcome, Ok(0));
    assert_eq!(engine.get_balance(ACCOUNT_A), 100);
    let records = engine.query(&filter_all()).unwrap();
    assert_eq!(records.len(), 1);
    assert_eq!(records[0].destination, Some(ACCOUNT_A));
    assert_eq!(records[0].origin, None);
    assert_eq!(records[0].amount, 100);
    assert_eq!(records[0].timestamp, 5);
}

#[test]
fn failed_transfer_changes_nothing() {
    let mut engine = LedgerEngine::initialize(ADMIN);
    engine
        .credit(ADMIN, ACCOUNT_A, 100, TransactionType::Revenue, String::from("seed"), 1)
        .unwrap();
    let outcome = engine.transfer(ACCOUNT_A, ACCOUNT_B, 150, String::from("too much"), 2);
    assert_eq!(outcome, Err(LedgerError::InsufficientBalance));
    assert_eq!(engine.get_balance(ACCOUNT_A), 100);
    assert_eq!(engine.get_balance(ACCOUNT_B), 0);
    let records = engine.query(&filter_all()).unwrap();
    assert_eq!(records.len(), 1);
}

#[test]
fn successful_transfer_moves_value_and_journals_once() {
    let mut engine = LedgerEngine::initialize(ADMIN);
    engine
        .credit(ADMIN, ACCOUNT_A, 100, TransactionType::Revenue, String::from("seed"), 1)
        .unwrap();
    let outcome = engine.transfer(ACCOUNT_A, ACCOUNT_B, 60, String::from("pay"), 2);
    assert_eq!(outcome, Ok(1));
    assert_eq!(engine.get_balance(ACCOUNT_A), 40);
    assert_eq!(engine.get_balance(ACCOUNT_B), 60);
    let records = engine.query(&filter_all()).unwrap();
    assert_eq!(records.len(), 2);
    assert_eq!(records[1].origin, Some(ACCOUNT_A));
    assert_eq!(records[1].destination, Some(ACCOUNT_B));
    assert_eq!(records[1].amount, 60);
    assert_eq!(records[1].category, TransactionType::Transfer);
}

#[test]
fn transfers_conserve_the_sum_of_balances() {
    let mut engine = LedgerEngine::initialize(ADMIN);
    engine
        .credit(ADMIN, ACCOUNT_A, 700, TransactionType::Revenue, String::from("seed a"), 1)
        .unwrap();
    engine
        .credit(ADMIN, ACCOUNT_B, 300, TransactionType::Revenue, String::from("seed b"), 2)
        .unwrap();
    let sum_before = engine.get_balance(ACCOUNT_A) + engine.get_balance(ACCOUNT_B);
    engine.transfer(ACCOUNT_A, ACCOUNT_B, 250, String::from("one way"), 3).unwrap();
    assert_eq!(engine.get_balance(ACCOUNT_A) + engine.get_balance(ACCOUNT_B), sum_before);
    engine.transfer(ACCOUNT_B, ACCOUNT_A, 50, String::from("back"), 4).unwrap();
    assert_eq!(engine.get_balance(ACCOUNT_A) + engine.get_balance(ACCOUNT_B), sum_before);
    // a transfer of an account to itself also conserves
    engine.transfer(ACCOUNT_A, ACCOUNT_A, 10, String::from("self"), 5).unwrap();
    assert_eq!(engine.get_balance(ACCOUNT_A) + engine.get_balance(ACCOUNT_B), sum_before);
}

#[test]
fn balances_never_observed_negative() {
    let mut engine = LedgerEngine::initialize(ADMIN);
    assert_eq!(engine.get_balance(ACCOUNT_A), 0);
    engine
        .credit(ADMIN, ACCOUNT_A, 40, TransactionType::Revenue, String::from("seed"), 1)
        .unwrap();
    let over_debit = engine.debit(
        ACCOUNT_A,
        ACCOUNT_A,
        41,
        TransactionType::Expense,
        String::from("too much"),
        2,
    );
    assert_eq!(over_debit, Err(LedgerError::InsufficientBalance));
    assert_eq!(engine.get_balance(ACCOUNT_A), 40);
    engine
        .debit(ACCOUNT_A, ACCOUNT_A, 40, TransactionType::Expense, String::from("all of it"), 3)
        .unwrap();
    assert_eq!(engine.get_balance(ACCOUNT_A), 0);
}

#[test]
fn every_successful_mutation_journals_exactly_one_record() {
    let mut engine = LedgerEngine::initialize(ADMIN);
    assert_eq!(engine.query(&filter_all()).unwrap().len(), 0);
    engine
        .credit(ADMIN, ACCOUNT_A, 90, TransactionType::Revenue, String::from("in"), 1)
        .unwrap();
    assert_eq!(engine.query(&filter_all()).unwrap().len(), 1);
    engine
        .debit(ACCOUNT_A, ACCOUNT_A, 30, TransactionType::Expense, String::from("out"), 2)
        .unwrap();
    let records = engine.query(&filter_all()).unwrap();
    assert_eq!(records.len(), 2);
    assert_eq!(records[1].origin, Some(ACCOUNT_A));
    assert_eq!(records[1].destination, None);
    assert_eq!(records[1].amount, 30);
}

#[test]
fn summarize_is_idempotent_on_an_unchanged_journal() {
    let mut engine = LedgerEngine::initialize(ADMIN);
    engine
        .credit(ADMIN, ACCOUNT_A, 500, TransactionType::Revenue, String::from("sale"), 1)
        .unwrap();
    engine
        .credit(ADMIN, ACCOUNT_B, 200, TransactionType::Expense, String::from("rent"), 2)
        .unwrap();
    let first = engine.summarize(&filter_all()).unwrap();
    let second = engine.summarize(&filter_all()).unwrap();
    assert_eq!(first, second);
}

#[test]
fn tier_is_never_lowered_by_more_spend() {
    let ladder = [0i128, 999_999, 1_000_000, 4_999_999, 5_000_000, 20_000_000, 30_000_000];
    let rank = |tier: CustomerTier| match tier {
        CustomerTier::Bronze => 0,
        CustomerTier::Silver => 1,
        CustomerTier::Gold => 2,
        CustomerTier::Platinum => 3,
    };
    let mut last = rank(classify_spend(0));
    for spend in ladder {
        let now = rank(classify_spend(spend));
        assert!(now >= last);
        last = now;
    }
}

#[test]
fn tier_boundary_is_inclusive() {
    assert_eq!(classify_spend(0), CustomerTier::Bronze);
    assert_eq!(classify_spend(999_999), CustomerTier::Bronze);
    assert_eq!(classify_spend(1_000_000), CustomerTier::Silver);
    assert_eq!(classify_spend(4_999_999), CustomerTier::Silver);
    assert_eq!(classify_spend(5_000_000), CustomerTier::Gold);
    assert_eq!(classify_spend(19_999_999), CustomerTier::Gold);
    assert_eq!(classify_spend(20_000_000), CustomerTier::Platinum);
}

#[test]
fn summarize_computes_the_fixed_formulas() {
    let mut journal = Journal::new();
    journal
        .append(None, Some(ACCOUNT_A), 500, TransactionType::Revenue, String::from("sale"), 1)
        .unwrap();
    journal
        .append(Some(ACCOUNT_A), None, 200, TransactionType::Expense, String::from("rent"), 2)
        .unwrap();
    journal
        .append(Some(ACCOUNT_A), None, 50, TransactionType::Tax, String::from("vat"), 3)
        .unwrap();
    let report = summarize(&journal, &filter_all()).unwrap();
    assert_eq!(report.total_revenue, 500);
    assert_eq!(report.total_expenses, 250);
    assert_eq!(report.net_income, 250);
    assert_eq!(report.margin, 50);
}

#[test]
fn summarize_with_zero_revenue_has_margin_zero() {
    let mut journal = Journal::new();
    journal
        .append(Some(ACCOUNT_A), None, 200, TransactionType::Expense, String::from("rent"), 1)
        .unwrap();
    let report = summarize(&journal, &filter_all()).unwrap();
    assert_eq!(report.total_revenue, 0);
    assert_eq!(report.net_income, -200);
    assert_eq!(report.margin, 0);
}

#[test]
fn summarize_over_an_empty_journal_is_all_zero() {
    let journal = Journal::new();
    let report = summarize(&journal, &filter_all()).unwrap();
    assert_eq!(report.total_revenue, 0);
    assert_eq!(report.total_expenses, 0);
    assert_eq!(report.net_income, 0);
    assert_eq!(report.margin, 0);
}

#[test]
fn malformed_time_range_is_an_invalid_filter() {
    let journal = Journal::new();
    let filter = RecordFilter { account: None, category: None, from_time: Some(9), to_time: Some(3) };
    assert_eq!(summarize(&journal, &filter), Err(LedgerError::InvalidFilter));
    assert_eq!(journal.query(&filter).unwrap_err(), LedgerError::InvalidFilter);
}

#[test]
fn query_filters_by_account_category_and_time() {
    let mut engine = LedgerEngine::initialize(ADMIN);
    engine
        .credit(ADMIN, ACCOUNT_A, 500, TransactionType::Revenue, String::from("sale"), 10)
        .unwrap();
    engine
        .credit(ADMIN, ACCOUNT_B, 300, TransactionType::Revenue, String::from("sale"), 20)
        .unwrap();
    engine.transfer(ACCOUNT_A, ACCOUNT_B, 100, String::from("move"), 30).unwrap();

    let by_account = engine
        .query(
            &RecordFilter { account: Some(ACCOUNT_A), category: None, from_time: None, to_time: None },
        )
        .unwrap();
    assert_eq!(by_account.len(), 2);

    let by_category = engine
        .query(
            &RecordFilter {
                account: None,
                category: Some(TransactionType::Transfer),
                from_time: None,
                to_time: None,
            },
        )
        .unwrap();
    assert_eq!(by_category.len(), 1);
    assert_eq!(by_category[0].amount, 100);

    let by_time = engine
        .query(
            &RecordFilter { account: None, category: None, from_time: Some(15), to_time: Some(25) },
        )
        .unwrap();
    assert_eq!(by_time.len(), 1);
    assert_eq!(by_time[0].timestamp, 20);
}

#[test]
fn gate_errors_come_before_any_state_change() {
    let mut engine = LedgerEngine::initialize(ADMIN);
    let wrong_principal = engine.credit(
        ACCOUNT_A,
        ACCOUNT_A,
        10,
        TransactionType::Revenue,
        String::from("nope"),
        1,
    );
    assert_eq!(wrong_principal, Err(LedgerError::Unauthorized));
    let bad_amount = engine.credit(
        ADMIN,
        ACCOUNT_A,
        0,
        TransactionType::Revenue,
        String::from("zero"),
        2,
    );
    assert_eq!(bad_amount, Err(LedgerError::InvalidAmount));
    let wrong_debitor = engine.debit(
        ACCOUNT_B,
        ACCOUNT_A,
        5,
        TransactionType::Expense,
        String::from("nope"),
        3,
    );
    assert_eq!(wrong_debitor, Err(LedgerError::Unauthorized));
    assert_eq!(engine.query(&filter_all()).unwrap().len(), 0);
    assert_eq!(engine.get_balance(ACCOUNT_A), 0);
}

#[test]
fn exhausted_journal_storage_aborts_the_mutation() {
    let mut engine = LedgerEngine::initialize(ADMIN);
    engine
        .credit(
            ADMIN,
            ACCOUNT_A,
            MAX_TOTAL_AMOUNT,
            TransactionType::Revenue,
            String::from("everything"),
            1,
        )
        .unwrap();
    let overflowing = engine.credit(
        ADMIN,
        ACCOUNT_A,
        1,
        TransactionType::Revenue,
        String::from("one more"),
        2,
    );
    assert_eq!(overflowing, Err(LedgerError::StorageFault));
    assert_eq!(engine.get_balance(ACCOUNT_A), MAX_TOTAL_AMOUNT);
    assert_eq!(engine.query(&filter_all()).unwrap().len(), 1);
}

#[test]
fn transfer_with_invalid_amount_is_rejected() {
    let mut engine = LedgerEngine::initialize(ADMIN);
    engine
        .credit(ADMIN, ACCOUNT_A, 10, TransactionType::Revenue, String::from("seed"), 1)
        .unwrap();
    assert_eq!(
        engine.transfer(ACCOUNT_A, ACCOUNT_B, 0, String::from("zero"), 2),
        Err(LedgerError::InvalidAmount)
    );
    assert_eq!(
        engine.transfer(ACCOUNT_A, ACCOUNT_B, -5, String::from("negative"), 3),
        Err(LedgerError::InvalidAmount)
    );
    assert_eq!(engine.get_balance(ACCOUNT_A), 10);
}
