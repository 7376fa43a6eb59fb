//! Engine-level laws: properties that hold across whole histories of
//! operations, not just single calls.
//!
//! A step predicate holds of a pair of engine states exactly when the pair
//! is a possible before/after of one mutating call, as stated by that
//! call's contract. The laws here quantify over arbitrary chains of such
//! steps.

use vstd::prelude::*;
use crate::AccountId;
use crate::engine::{
    spec_credit_effect, spec_debit_effect, spec_transfer_effect, LedgerEngine,
};
use crate::errors::LedgerError;
use crate::journal::TransactionType;

verus! {

/// The pair (pre, post) is a possible outcome of one `credit` call.
pub open spec fn spec_is_credit_step(pre: LedgerEngine, post: LedgerEngine) -> bool {
    exists|
        principal: AccountId,
        account: AccountId,
        amount: i128,
        category: TransactionType,
        description: String,
        timestamp: u64,
        outcome: Result<u64, LedgerError>,
    |
        spec_credit_effect(
            pre,
            post,
            principal,
            account,
            amount,
            category,
            description,
            timestamp,
            outcome,
        )
}

/// The pair (pre, post) is a possible outcome of one `debit` call.
pub open spec fn spec_is_debit_step(pre: LedgerEngine, post: LedgerEngine) -> bool {
    exists|
        principal: AccountId,
        account: AccountId,
        amount: i128,
        category: TransactionType,
        description: String,
        timestamp: u64,
        outcome: Result<u64, LedgerError>,
    |
        spec_debit_effect(
            pre,
            post,
            principal,
            account,
            amount,
            category,
            description,
            timestamp,
            outcome,
        )
}

/// The pair (pre, post) is a possible outcome of one `transfer` call.
pub open spec fn spec_is_transfer_step(pre: LedgerEngine, post: LedgerEngine) -> bool {
    exists|
        from: AccountId,
        to: AccountId,
        amount: i128,
        description: String,
        timestamp: u64,
        outcome: Result<u64, LedgerError>,
    | spec_transfer_effect(pre, post, from, to, amount, description, timestamp, outcome)
}

/// The pair (pre, post) is a possible outcome of one mutating call of any
/// kind.
pub open spec fn spec_is_engine_step(pre: LedgerEngine, post: LedgerEngine) -> bool {
    spec_is_credit_step(pre, post) || spec_is_debit_step(pre, post) || spec_is_transfer_step(
        pre,
        post,
    )
}

/// Every mutating call keeps the engine well formed.
pub proof fn lemma_engine_step_wf(pre: LedgerEngine, post: LedgerEngine)
    requires
        pre.wf(),
        spec_is_engine_step(pre, post),
    ensures
        post.wf(),
{
    if spec_is_credit_step(pre, post) {
        let (principal, account, amount, category, description, timestamp, outcome) = choose|
            principal: AccountId,
            account: AccountId,
            amount: i128,
            category: TransactionType,
            description: String,
            timestamp: u64,
            outcome: Result<u64, LedgerError>,
        |
            spec_credit_effect(
                pre,
                post,
                principal,
                account,
                amount,
                category,
                description,
                timestamp,
                outcome,
            );
    } else if spec_is_debit_step(pre, post) {
        let (principal, account, amount, category, description, timestamp, outcome) = choose|
            principal: AccountId,
            account: AccountId,
            amount: i128,
            category: TransactionType,
            description: String,
            timestamp: u64,
            outcome: Result<u64, LedgerError>,
        |
            spec_debit_effect(
                pre,
                post,
                principal,
                account,
                amount,
                category,
                description,
                timestamp,
                outcome,
            );
    } else {
        let (from, to, amount, description, timestamp, outcome) = choose|
            from: AccountId,
            to: AccountId,
            amount: i128,
            description: String,
            timestamp: u64,
            outcome: Result<u64, LedgerError>,
        | spec_transfer_effect(pre, post, from, to, amount, description, timestamp, outcome);
    }
}

/// One transfer call, successful or not, conserves the sum of all
/// balances.
pub proof fn lemma_transfer_conserves(pre: LedgerEngine, post: LedgerEngine)
    requires
        pre.wf(),
        spec_is_transfer_step(pre, post),
    ensures
        post.wf(),
        post.total_balance() == pre.total_balance(),
{
    let (from, to, amount, description, timestamp, outcome) = choose|
        from: AccountId,
        to: AccountId,
        amount: i128,
        description: String,
        timestamp: u64,
        outcome: Result<u64, LedgerError>,
    | spec_transfer_effect(pre, post, from, to, amount, description, timestamp, outcome);
}

/// Law (non-negativity): over any history that starts well formed and
/// advances by credit, debit and transfer operations, no account balance
/// is ever observed negative in any state.
pub proof fn lemma_nonnegativity_over_history(history: Seq<LedgerEngine>, account: AccountId)
    requires
        history.len() > 0,
        history.first().wf(),
        forall|i: int|
            0 <= i < history.len() - 1 ==> spec_is_engine_step(
                #[trigger] history[i],
                history[i + 1],
            ),
    ensures
        forall|i: int| 0 <= i < history.len() ==> (#[trigger] history[i]).wf(),
        forall|i: int|
            0 <= i < history.len() ==> #[trigger] history[i].balance(account) >= 0,
    decreases history.len(),
{
    history[0].lemma_balance_nonnegative(account);
    if history.len() > 1 {
        assert(spec_is_engine_step(history[0], history[1]));
        lemma_engine_step_wf(history[0], history[1]);
        let rest = history.drop_first();
        assert(rest.first().wf());
        assert forall|i: int|
            0 <= i < rest.len() - 1 implies spec_is_engine_step(
            #[trigger] rest[i],
            rest[i + 1],
        ) by {
            assert(rest[i] == history[i + 1]);
            assert(rest[i + 1] == history[i + 2]);
        }
        lemma_nonnegativity_over_history(rest, account);
        assert forall|i: int| 0 <= i < history.len() implies (#[trigger] history[i]).wf() by {
            if i > 0 {
                assert(history[i] == rest[i - 1]);
            }
        }
        assert forall|i: int|
            0 <= i < history.len() implies #[trigger] history[i].balance(account) >= 0 by {
            if i > 0 {
                assert(history[i] == rest[i - 1]);
            }
        }
    }
}

/// Law (conservation): over any history that starts well formed and
/// advances only by transfer operations, the sum of all balances in the
/// final state equals the sum in the initial state.
pub proof fn lemma_conservation_over_history(history: Seq<LedgerEngine>)
    requires
        history.len() > 0,
        history.first().wf(),
        forall|i: int|
            0 <= i < history.len() - 1 ==> spec_is_transfer_step(
                #[trigger] history[i],
                history[i + 1],
            ),
    ensures
        history.last().total_balance() == history.first().total_balance(),
        history.last().wf(),
    decreases history.len(),
{
    if history.len() > 1 {
        assert(spec_is_transfer_step(history[0], history[1]));
        lemma_transfer_conserves(history[0], history[1]);
        let rest = history.drop_first();
        assert(rest.first().wf());
        assert forall|i: int|
            0 <= i < rest.len() - 1 implies spec_is_transfer_step(
            #[trigger] rest[i],
            rest[i + 1],
        ) by {
            assert(rest[i] == history[i + 1]);
            assert(rest[i + 1] == history[i + 2]);
        }
        lemma_conservation_over_history(rest);
        assert(history.last() == rest.last());
    }
}

/// Law (atomic transfer): a transfer that fails the debit check returns
/// `InsufficientBalance` and produces no credit record and no balance
/// change anywhere — the post state is the pre state.
pub proof fn lemma_transfer_atomic(
    pre: LedgerEngine,
    post: LedgerEngine,
    from: AccountId,
    to: AccountId,
    amount: i128,
    description: String,
    timestamp: u64,
    outcome: Result<u64, LedgerError>,
)
    requires
        spec_transfer_effect(pre, post, from, to, amount, description, timestamp, outcome),
        amount > 0,
        pre.balance(from) < amount,
    ensures
        outcome == Err::<u64, LedgerError>(LedgerError::InsufficientBalance),
        post == pre,
{
}

/// Law (journal completeness): a mutating call that changed the engine
/// appended exactly one record, left all earlier records unchanged, and
/// that record's amount and parties match the balance delta it applied.
pub proof fn lemma_journal_completeness(pre: LedgerEngine, post: LedgerEngine)
    requires
        pre.wf(),
        spec_is_engine_step(pre, post),
        post != pre,
    ensures
        post.records().len() == pre.records().len() + 1,
        post.records().take(pre.records().len() as int) == pre.records(),
        ({
            let record = post.records().last();
            &&& record.amount > 0
            &&& match (record.origin, record.destination) {
                (None, Some(destination)) => post.balance(destination) == pre.balance(
                    destination,
                ) + record.amount && post.total_balance() == pre.total_balance()
                    + record.amount,
                (Some(origin), None) => post.balance(origin) == pre.balance(origin)
                    - record.amount && post.total_balance() == pre.total_balance()
                    - record.amount,
                (Some(origin), Some(destination)) => post.total_balance()
                    == pre.total_balance() && (origin != destination ==> post.balance(origin)
                    == pre.balance(origin) - record.amount && post.balance(destination)
                    == pre.balance(destination) + record.amount),
                (None, None) => false,
            }
        }),
{
    if spec_is_credit_step(pre, post) {
        let (principal, account, amount, category, description, timestamp, outcome) = choose|
            principal: AccountId,
            account: AccountId,
            amount: i128,
            category: TransactionType,
            description: String,
            timestamp: u64,
            outcome: Result<u64, LedgerError>,
        |
            spec_credit_effect(
                pre,
                post,
                principal,
                account,
                amount,
                category,
                description,
                timestamp,
                outcome,
            );
        assert(principal == pre.spec_admin() && amount > 0 && pre.journal_total() + amount
            <= crate::MAX_TOTAL_AMOUNT);
        assert(post.records().take(pre.records().len() as int) =~= pre.records());
    } else if spec_is_debit_step(pre, post) {
        let (principal, account, amount, category, description, timestamp, outcome) = choose|
            principal: AccountId,
            account: AccountId,
            amount: i128,
            category: TransactionType,
            description: String,
            timestamp: u64,
            outcome: Result<u64, LedgerError>,
        |
            spec_debit_effect(
                pre,
                post,
                principal,
                account,
                amount,
                category,
                description,
                timestamp,
                outcome,
            );
        assert(principal == account && amount > 0 && pre.balance(account) >= amount
            && pre.journal_total() + amount <= crate::MAX_TOTAL_AMOUNT);
        assert(post.records().take(pre.records().len() as int) =~= pre.records());
    } else {
        let (from, to, amount, description, timestamp, outcome) = choose|
            from: AccountId,
            to: AccountId,
            amount: i128,
            description: String,
            timestamp: u64,
            outcome: Result<u64, LedgerError>,
        | spec_transfer_effect(pre, post, from, to, amount, description, timestamp, outcome);
        assert(amount > 0 && pre.balance(from) >= amount && pre.journal_total() + amount
            <= crate::MAX_TOTAL_AMOUNT);
        assert(post.records().take(pre.records().len() as int) =~= pre.records());
    }
}

} // verus!
