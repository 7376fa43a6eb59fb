//! Ordered-threshold classification of cumulative spend into tiers.
//!
//! Bands are evaluated from the highest threshold down, and a spend exactly
//! at a boundary qualifies for the higher band. Because the classifier is a
//! monotone function of cumulative spend, and cumulative spend only grows,
//! a tier once reached is never lowered by later activity.

use vstd::prelude::*;

verus! {

/// Customer tiers, ordered Bronze < Silver < Gold < Platinum.
#[derive(Clone, Copy, Debug, PartialEq, Eq, Structural)]
pub enum CustomerTier {
    Bronze,
    Silver,
    Gold,
    Platinum,
}

/// Cumulative spend at which an account becomes Silver.
pub const SILVER_SPEND_THRESHOLD: i128 = 1_000_000;

/// Cumulative spend at which an account becomes Gold.
pub const GOLD_SPEND_THRESHOLD: i128 = 5_000_000;

/// Cumulative spend at which an account becomes Platinum.
pub const PLATINUM_SPEND_THRESHOLD: i128 = 20_000_000;

/// The tier assigned to a given cumulative spend: the highest band whose
/// threshold the spend has reached.
pub open spec fn tier_of(spend: int) -> CustomerTier {
    if spend >= PLATINUM_SPEND_THRESHOLD {
        CustomerTier::Platinum
    } else if spend >= GOLD_SPEND_THRESHOLD {
        CustomerTier::Gold
    } else if spend >= SILVER_SPEND_THRESHOLD {
        CustomerTier::Silver
    } else {
        CustomerTier::Bronze
    }
}

/// The position of a tier in the Bronze < Silver < Gold < Platinum order.
pub open spec fn tier_rank(tier: CustomerTier) -> int {
    match tier {
        CustomerTier::Bronze => 0,
        CustomerTier::Silver => 1,
        CustomerTier::Gold => 2,
        CustomerTier::Platinum => 3,
    }
}

/// Classifies a cumulative spend into its tier.
pub fn classify_spend(spend: i128) -> (tier: CustomerTier)
    ensures
        tier == tier_of(spend as int),
{
    if spend >= PLATINUM_SPEND_THRESHOLD {
        CustomerTier::Platinum
    } else if spend >= GOLD_SPEND_THRESHOLD {
        CustomerTier::Gold
    } else if spend >= SILVER_SPEND_THRESHOLD {
        CustomerTier::Silver
    } else {
        CustomerTier::Bronze
    }
}

/// Law: the classifier is monotone in cumulative spend. Since a purchase
/// only increases cumulative spend, an account that has reached a tier is
/// never classified below it afterwards.
pub proof fn lemma_tier_monotonic(spend_before: int, spend_after: int)
    requires
        spend_before <= spend_after,
    ensures
        tier_rank(tier_of(spend_before)) <= tier_rank(tier_of(spend_after)),
{
}

} // verus!
