//! The payment processor: a validated, append-only record of payments.
//!
//! The value movement itself is the token ledger's work; this system
//! validates the request and keeps the audit record, assigning each
//! payment a unique sequence number.

use vstd::prelude::*;
use crate::AccountId;

verus! {

/// Why a payment operation was refused.
#[derive(Clone, Copy, Debug, PartialEq, Eq, Structural)]
pub enum PaymentError {
    /// The principal is not the identity the operation requires.
    Unauthorized,
    /// A non-positive amount was presented.
    InvalidAmount,
    /// No payment matches the request.
    PaymentNotFound,
}

/// One recorded payment.
#[derive(Clone, Copy, Debug, PartialEq, Eq, Structural)]
pub struct PaymentRecord {
    /// Sequence number assigned by the processor: the payment's position
    /// in insertion order.
    pub payment_id: u64,
    /// The paying account; the authenticated principal.
    pub customer: AccountId,
    /// The receiving account.
    pub merchant: AccountId,
    /// The amount paid; strictly positive.
    pub amount: i128,
    /// Logical timestamp supplied by the caller's clock source.
    pub timestamp: u64,
}

/// Whether a payment was made by the customer.
pub open spec fn spec_paid_by(record: PaymentRecord, customer: AccountId) -> bool {
    record.customer == customer
}

/// The payments made by the customer, in insertion order.
pub open spec fn spec_payments_of(
    records: Seq<PaymentRecord>,
    customer: AccountId,
) -> Seq<PaymentRecord> {
    records.filter(|record: PaymentRecord| spec_paid_by(record, customer))
}

/// Extending the scanned prefix by one payment extends the filtered view
/// exactly when the payment was made by the customer.
pub proof fn lemma_payments_of_step(records: Seq<PaymentRecord>, i: int, customer: AccountId)
    requires
        0 <= i < records.len(),
    ensures
        spec_payments_of(records.take(i + 1), customer) == if spec_paid_by(records[i], customer) {
            spec_payments_of(records.take(i), customer).push(records[i])
        } else {
            spec_payments_of(records.take(i), customer)
        },
{
    reveal(Seq::filter);
    let prefix = records.take(i + 1);
    assert(prefix.last() == records[i]);
    assert(prefix.drop_last() =~= records.take(i));
}

/// The payment processor instance.
pub struct PaymentProcessor {
    admin: AccountId,
    payments: Vec<PaymentRecord>,
}

impl PaymentProcessor {
    /// The configured administrator identity.
    pub closed spec fn spec_admin(&self) -> AccountId {
        self.admin
    }

    /// The recorded payments in insertion order.
    pub closed spec fn payments(&self) -> Seq<PaymentRecord> {
        self.payments@
    }

    /// Payment ids are their insertion positions and amounts are strictly
    /// positive.
    pub closed spec fn wf(&self) -> bool {
        &&& (forall|i: int|
            0 <= i < self.payments@.len() ==> (#[trigger] self.payments@[i]).payment_id == i)
        &&& (forall|i: int|
            0 <= i < self.payments@.len() ==> (#[trigger] self.payments@[i]).amount > 0)
    }

    /// A fresh processor with no recorded payments.
    pub fn initialize(admin: AccountId) -> (processor: Self)
        ensures
            processor.wf(),
            processor.spec_admin() == admin,
            processor.payments() == Seq::<PaymentRecord>::empty(),
    {
        PaymentProcessor { admin, payments: Vec::new() }
    }

    /// Records a payment from the customer (the authenticated principal)
    /// to the merchant, assigning the next sequence number. Rejects a
    /// non-positive amount before any state change; the token ledger the
    /// payment settles against moves the value.
    pub fn process_payment(
        &mut self,
        customer: AccountId,
        merchant: AccountId,
        amount: i128,
        timestamp: u64,
    ) -> (outcome: Result<PaymentRecord, PaymentError>)
        requires
            old(self).wf(),
        ensures
            final(self).wf(),
            final(self).spec_admin() == old(self).spec_admin(),
            amount <= 0 ==> outcome == Err::<PaymentRecord, PaymentError>(
                PaymentError::InvalidAmount,
            ) && *final(self) == *old(self),
            amount > 0 ==> (outcome matches Ok(record) && {
                &&& record == (PaymentRecord {
                    payment_id: old(self).payments().len() as u64,
                    customer,
                    merchant,
                    amount,
                    timestamp,
                })
                &&& final(self).payments() == old(self).payments().push(record)
            }),
    {
        if amount <= 0 {
            return Err(PaymentError::InvalidAmount);
        }
        let record = PaymentRecord {
            payment_id: self.payments.len() as u64,
            customer,
            merchant,
            amount,
            timestamp,
        };
        proof {
            let p = self.payments@.push(record);
            assert forall|j: int| 0 <= j < p.len() implies (#[trigger] p[j]).payment_id == j by {
                if j < self.payments@.len() {
                    assert(p[j] == self.payments@[j]);
                }
            }
            assert forall|j: int| 0 <= j < p.len() implies (#[trigger] p[j]).amount > 0 by {
                if j < self.payments@.len() {
                    assert(p[j] == self.payments@[j]);
                }
            }
        }
        self.payments.push(record);
        Ok(record)
    }

    /// Returns the payments made by the customer, in insertion order.
    #[verifier::loop_isolation(false)]
    pub fn get_payment_history(&self, customer: AccountId) -> (history: Vec<PaymentRecord>)
        ensures
            history@ == spec_payments_of(self.payments(), customer),
    {
        let ghost all = self.payments@;
        let mut history: Vec<PaymentRecord> = Vec::new();
        let n = self.payments.len();
        let mut i: usize = 0;
        proof {
            assert(all.take(0) =~= Seq::<PaymentRecord>::empty());
            reveal(Seq::filter);
        }
        while i < n
            invariant
                i <= n,
                n == all.len(),
                history@ == spec_payments_of(all.take(i as int), customer),
            decreases n - i,
        {
            proof {
                lemma_payments_of_step(all, i as int, customer);
            }
            let record = self.payments[i];
            if record.customer == customer {
                history.push(record);
            }
            i += 1;
        }
        proof {
            assert(all.take(n as int) =~= all);
        }
        history
    }

    /// Returns every recorded payment. Admin-gated.
    pub fn get_all_payments(&self, admin: AccountId) -> (outcome: Result<
        Vec<PaymentRecord>,
        PaymentError,
    >)
        ensures
            admin != self.spec_admin() ==> outcome == Err::<Vec<PaymentRecord>, PaymentError>(
                PaymentError::Unauthorized,
            ),
            admin == self.spec_admin() ==> (outcome matches Ok(listed) && listed@
                == self.payments()),
    {
        if admin != self.admin {
            return Err(PaymentError::Unauthorized);
        }
        let listed = self.payments.clone();
        proof {
            assert(listed@ =~= self.payments@);
        }
        Ok(listed)
    }

    /// The greeting of this system.
    pub fn hello(&self) -> (greeting: String)
        ensures
            greeting@ == "Hello from PaymentProcessor!"@,
    {
        String::from_str("Hello from PaymentProcessor!")
    }
}

} // verus!
