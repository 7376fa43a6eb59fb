//! Shared retail types: the error taxonomy the retail-facing systems use
//! and the loyalty-point formula.

use vstd::prelude::*;
use vstd::arithmetic::div_mod::{lemma_div_basics_4, lemma_div_basics_5};
use crate::report::spec_div_trunc;

verus! {

/// Why a retail operation was refused.
#[derive(Clone, Copy, Debug, PartialEq, Eq, Structural)]
pub enum RetailError {
    /// The principal is not the identity the operation requires.
    Unauthorized,
    /// A debit exceeds the available balance.
    InsufficientBalance,
    /// No product exists under the given stock-keeping unit.
    ProductNotFound,
    /// Not enough stock to cover the request.
    InsufficientStock,
    /// A non-positive amount was presented to a mutator.
    InvalidAmount,
    /// The entry already exists.
    DuplicateEntry,
    /// No employee matches the given identity.
    EmployeeNotFound,
}

/// The loyalty points a purchase earns: one point per thousand units,
/// truncated toward zero.
pub fn calculate_loyalty_points(amount: i128) -> (points: i128)
    ensures
        points == spec_div_trunc(amount as int, 1000),
{
    proof {
        if amount >= 0 {
            lemma_div_basics_4(amount as int, 1000);
            lemma_div_basics_5(amount as int, 1000);
        } else {
            lemma_div_basics_4(-(amount as int), 1000);
            lemma_div_basics_5(-(amount as int), 1000);
        }
    }
    match amount.checked_div(1000) {
        Some(points) => points,
        None => {
            // unreachable: the divisor is positive and the truncated
            // quotient's magnitude is bounded by the dividend's
            proof {
                assert(false);
            }
            0
        },
    }
}

} // verus!
