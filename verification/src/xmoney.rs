//! The XMoney token: a token ledger with a conserved total supply, an
//! append-only transaction journal, and a payment history.
//!
//! Transfers are self-gated (the sender is the authenticated principal)
//! and conserve the sum of all balances, which always equals the total
//! supply; minting is admin-gated and raises supply and recipient balance
//! together. Every successful value-moving mutation appends exactly one
//! journal record whose parties and amount match the balance delta, before
//! the call returns; a failed mutation commits nothing.

use vstd::prelude::*;
use crate::{AccountId, MAX_TOTAL_AMOUNT};
use crate::balances::BalanceMap;
use crate::errors::LedgerError;
use crate::journal::{
    spec_appended_record, spec_filter_records, Journal, RecordFilter, TransactionRecord,
    TransactionType,
};

verus! {

/// The currencies a payment can be denominated in.
#[derive(Clone, Copy, Debug, PartialEq, Eq, Structural)]
pub enum Currency {
    XMT,
    USDC,
    VNDT,
}

/// The lifecycle state of a payment.
#[derive(Clone, Copy, Debug, PartialEq, Eq, Structural)]
pub enum PaymentStatus {
    Pending,
    Completed,
    Failed,
    Refunded,
}

/// One recorded payment made with the token.
#[derive(Debug)]
pub struct XMoneyPayment {
    /// Caller-supplied identifier (the order the payment settles).
    pub payment_id: String,
    /// The paying account.
    pub from: AccountId,
    /// The receiving account.
    pub to: AccountId,
    /// The amount paid; strictly positive.
    pub amount: i128,
    /// The currency of the payment.
    pub currency: Currency,
    /// The transaction hash label attached to the payment.
    pub transaction_hash: String,
    /// The lifecycle state of the payment.
    pub status: PaymentStatus,
    /// Logical timestamp supplied by the caller's clock source.
    pub timestamp: u64,
}

impl Clone for XMoneyPayment {
    fn clone(&self) -> (other: Self)
        ensures
            other == *self,
    {
        XMoneyPayment {
            payment_id: self.payment_id.clone(),
            from: self.from,
            to: self.to,
            amount: self.amount,
            currency: self.currency,
            transaction_hash: self.transaction_hash.clone(),
            status: self.status,
            timestamp: self.timestamp,
        }
    }
}

/// Whether a payment names the account as either party.
pub open spec fn spec_payment_touches(payment: XMoneyPayment, account: AccountId) -> bool {
    payment.from == account || payment.to == account
}

/// Whether a payment is a completed payment to the merchant.
pub open spec fn spec_payment_to_merchant(payment: XMoneyPayment, merchant: AccountId) -> bool {
    payment.to == merchant && payment.status == PaymentStatus::Completed
}

/// Whether a payment was made by the customer.
pub open spec fn spec_payment_by_customer(payment: XMoneyPayment, customer: AccountId) -> bool {
    payment.from == customer
}

/// The payments naming the account as either party, in insertion order.
pub open spec fn spec_payments_touching(
    payments: Seq<XMoneyPayment>,
    account: AccountId,
) -> Seq<XMoneyPayment> {
    payments.filter(|payment: XMoneyPayment| spec_payment_touches(payment, account))
}

/// The completed payments to the merchant, in insertion order.
pub open spec fn spec_payments_to_merchant(
    payments: Seq<XMoneyPayment>,
    merchant: AccountId,
) -> Seq<XMoneyPayment> {
    payments.filter(|payment: XMoneyPayment| spec_payment_to_merchant(payment, merchant))
}

/// The payments made by the customer, in insertion order.
pub open spec fn spec_payments_by_customer(
    payments: Seq<XMoneyPayment>,
    customer: AccountId,
) -> Seq<XMoneyPayment> {
    payments.filter(|payment: XMoneyPayment| spec_payment_by_customer(payment, customer))
}

/// Extending the scanned prefix by one payment extends each filtered view
/// exactly when the payment passes that view's test.
pub proof fn lemma_payment_filters_step(payments: Seq<XMoneyPayment>, i: int, account: AccountId)
    requires
        0 <= i < payments.len(),
    ensures
        spec_payments_touching(payments.take(i + 1), account) == if spec_payment_touches(
            payments[i],
            account,
        ) {
            spec_payments_touching(payments.take(i), account).push(payments[i])
        } else {
            spec_payments_touching(payments.take(i), account)
        },
        spec_payments_to_merchant(payments.take(i + 1), account) == if spec_payment_to_merchant(
            payments[i],
            account,
        ) {
            spec_payments_to_merchant(payments.take(i), account).push(payments[i])
        } else {
            spec_payments_to_merchant(payments.take(i), account)
        },
        spec_payments_by_customer(payments.take(i + 1), account) == if spec_payment_by_customer(
            payments[i],
            account,
        ) {
            spec_payments_by_customer(payments.take(i), account).push(payments[i])
        } else {
            spec_payments_by_customer(payments.take(i), account)
        },
{
    reveal(Seq::filter);
    let prefix = payments.take(i + 1);
    assert(prefix.last() == payments[i]);
    assert(prefix.drop_last() =~= payments.take(i));
}

/// How a successful value movement of `amount` from `from` to `to`
/// relates the balances before and after.
pub open spec fn spec_balances_moved(
    pre: XMoneyToken,
    post: XMoneyToken,
    from: AccountId,
    to: AccountId,
    amount: i128,
) -> bool {
    &&& (from != to ==> post.balance(from) == pre.balance(from) - amount && post.balance(to)
        == pre.balance(to) + amount)
    &&& (from == to ==> post.balance(from) == pre.balance(from))
    &&& (forall|k: AccountId|
        k != from && k != to ==> #[trigger] post.balance(k) == pre.balance(k))
}

/// The token ledger instance.
pub struct XMoneyToken {
    admin: AccountId,
    total_supply: i128,
    balances: BalanceMap,
    journal: Journal,
    payments: Vec<XMoneyPayment>,
}

impl XMoneyToken {
    /// The configured administrator identity.
    pub closed spec fn spec_admin(&self) -> AccountId {
        self.admin
    }

    /// The balance of an account; zero when it has no history.
    pub closed spec fn balance(&self, account: AccountId) -> int {
        self.balances.balance(account)
    }

    /// The total supply of the token.
    pub closed spec fn spec_total_supply(&self) -> int {
        self.total_supply as int
    }

    /// The journal records in insertion order.
    pub closed spec fn records(&self) -> Seq<TransactionRecord> {
        self.journal.records()
    }

    /// The sum of all journalled amounts.
    pub closed spec fn journal_total(&self) -> int {
        self.journal.total()
    }

    /// The recorded payments in insertion order.
    pub closed spec fn payments(&self) -> Seq<XMoneyPayment> {
        self.payments@
    }

    /// Balances and journal are well formed, the sum of all balances
    /// equals the total supply, the supply never exceeds the journalled
    /// total (each unit of supply was journalled on its way in), and
    /// every recorded payment has a positive amount.
    pub closed spec fn wf(&self) -> bool {
        &&& self.balances.wf()
        &&& self.journal.wf()
        &&& self.balances.total() == self.total_supply
        &&& 0 <= self.total_supply
        &&& self.total_supply <= self.journal.total()
        &&& forall|i: int|
            0 <= i < self.payments@.len() ==> (#[trigger] self.payments@[i]).amount > 0
    }

    /// Law: the sum of all balances always equals the total supply, and
    /// no balance is negative or exceeds the supply.
    pub proof fn lemma_supply_conserved(&self, account: AccountId)
        requires
            self.wf(),
        ensures
            0 <= self.balance(account) <= self.spec_total_supply(),
            self.spec_total_supply() <= self.journal_total() <= MAX_TOTAL_AMOUNT,
    {
        self.balances.lemma_balance_bounds(account);
        self.journal.lemma_wf_facts();
    }

    /// A fresh token ledger: the whole initial supply is credited to the
    /// administrator and journalled as one system-originated record (no
    /// record when the supply is zero, since no value moved). Rejects a
    /// negative supply as `InvalidAmount` and a supply past the bounded
    /// range as `StorageFault`.
    pub fn initialize(admin: AccountId, total_supply: i128, timestamp: u64) -> (outcome: Result<
        Self,
        LedgerError,
    >)
        ensures
            total_supply < 0 ==> outcome == Err::<Self, LedgerError>(LedgerError::InvalidAmount),
            total_supply > MAX_TOTAL_AMOUNT ==> outcome == Err::<Self, LedgerError>(
                LedgerError::StorageFault,
            ),
            0 <= total_supply <= MAX_TOTAL_AMOUNT ==> (outcome matches Ok(token) && {
                &&& token.wf()
                &&& token.spec_admin() == admin
                &&& token.spec_total_supply() == total_supply
                &&& token.balance(admin) == total_supply
                &&& (forall|k: AccountId| k != admin ==> #[trigger] token.balance(k) == 0)
                &&& token.payments() == Seq::<XMoneyPayment>::empty()
                &&& (total_supply == 0 ==> token.records() == Seq::<TransactionRecord>::empty())
                &&& (total_supply > 0 ==> spec_appended_record(
                    Seq::<TransactionRecord>::empty(),
                    token.records(),
                    None,
                    Some(admin),
                    total_supply,
                    TransactionType::Revenue,
                    "initial supply"@,
                    timestamp,
                ))
            }),
    {
        if total_supply < 0 {
            return Err(LedgerError::InvalidAmount);
        }
        if total_supply > MAX_TOTAL_AMOUNT {
            return Err(LedgerError::StorageFault);
        }
        let mut balances = BalanceMap::new();
        let mut journal = Journal::new();
        if total_supply > 0 {
            let ghost empty_records = journal.records();
            let appended = journal.append(
                None,
                Some(admin),
                total_supply,
                TransactionType::Revenue,
                String::from_str("initial supply"),
                timestamp,
            );
            proof {
                assert(appended is Ok);
                assert(journal.records().take(0) =~= empty_records);
            }
            balances.add_to(admin, total_supply);
        }
        Ok(XMoneyToken { admin, total_supply, balances, journal, payments: Vec::new() })
    }

    /// Reads the balance of an account; an account with no history reads
    /// as zero.
    pub fn balance_of(&self, address: AccountId) -> (balance: i128)
        ensures
            balance == self.balance(address),
    {
        self.balances.get(address)
    }

    /// Reads the total supply.
    pub fn get_total_supply(&self) -> (outcome: Result<i128, LedgerError>)
        ensures
            outcome == Ok::<i128, LedgerError>((self.spec_total_supply()) as i128),
    {
        Ok(self.total_supply)
    }

    /// Moves `amount` from `from` to `to` and journals one record of it,
    /// as a single atomic unit, labelling the record with `note`.
    fn move_value(
        &mut self,
        from: AccountId,
        to: AccountId,
        amount: i128,
        note: String,
        timestamp: u64,
    ) -> (outcome: Result<(), LedgerError>)
        requires
            old(self).wf(),
        ensures
            final(self).wf(),
            final(self).spec_admin() == old(self).spec_admin(),
            final(self).spec_total_supply() == old(self).spec_total_supply(),
            final(self).payments() == old(self).payments(),
            amount <= 0 ==> outcome == Err::<(), LedgerError>(LedgerError::InvalidAmount)
                && *final(self) == *old(self),
            amount > 0 && old(self).balance(from) < amount ==> outcome == Err::<(), LedgerError>(
                LedgerError::InsufficientBalance,
            ) && *final(self) == *old(self),
            amount > 0 && old(self).balance(from) >= amount && old(self).journal_total() + amount
                > MAX_TOTAL_AMOUNT ==> outcome == Err::<(), LedgerError>(LedgerError::StorageFault)
                && *final(self) == *old(self),
            amount > 0 && old(self).balance(from) >= amount && old(self).journal_total() + amount
                <= MAX_TOTAL_AMOUNT ==> outcome == Ok::<(), LedgerError>(()) && {
                &&& spec_balances_moved(*old(self), *final(self), from, to, amount)
                &&& spec_appended_record(
                    old(self).records(),
                    final(self).records(),
                    Some(from),
                    Some(to),
                    amount,
                    TransactionType::Transfer,
                    note@,
                    timestamp,
                )
                &&& final(self).journal_total() == old(self).journal_total() + amount
            },
    {
        if amount <= 0 {
            return Err(LedgerError::InvalidAmount);
        }
        let available = self.balances.get(from);
        if available < amount {
            return Err(LedgerError::InsufficientBalance);
        }
        let ghost records_before = self.journal.records();
        let appended = self.journal.append(
            Some(from),
            Some(to),
            amount,
            TransactionType::Transfer,
            note,
            timestamp,
        );
        match appended {
            Err(error) => Err(error),
            Ok(_) => {
                proof {
                    assert(self.journal.records().take(records_before.len() as int)
                        =~= records_before);
                    self.balances.lemma_balance_bounds(from);
                    self.balances.lemma_balance_bounds(to);
                }
                self.balances.sub_from(from, amount);
                proof {
                    self.balances.lemma_balance_bounds(to);
                }
                self.balances.add_to(to, amount);
                Ok(())
            },
        }
    }

    /// Moves `amount` from `from` (the authenticated principal) to `to`
    /// and journals exactly one Transfer record of it, as a single atomic
    /// unit. Rejects non-positive amounts and amounts above the sender's
    /// balance, and fails with `StorageFault` when the bounded journal
    /// cannot take the record; a failed transfer changes nothing. The
    /// total supply is conserved in every case.
    pub fn transfer(
        &mut self,
        from: AccountId,
        to: AccountId,
        amount: i128,
        timestamp: u64,
    ) -> (outcome: Result<(), LedgerError>)
        requires
            old(self).wf(),
        ensures
            final(self).wf(),
            final(self).spec_admin() == old(self).spec_admin(),
            final(self).spec_total_supply() == old(self).spec_total_supply(),
            final(self).payments() == old(self).payments(),
            amount <= 0 ==> outcome == Err::<(), LedgerError>(LedgerError::InvalidAmount)
                && *final(self) == *old(self),
            amount > 0 && old(self).balance(from) < amount ==> outcome == Err::<(), LedgerError>(
                LedgerError::InsufficientBalance,
            ) && *final(self) == *old(self),
            amount > 0 && old(self).balance(from) >= amount && old(self).journal_total() + amount
                > MAX_TOTAL_AMOUNT ==> outcome == Err::<(), LedgerError>(LedgerError::StorageFault)
                && *final(self) == *old(self),
            amount > 0 && old(self).balance(from) >= amount && old(self).journal_total() + amount
                <= MAX_TOTAL_AMOUNT ==> outcome == Ok::<(), LedgerError>(()) && {
                &&& spec_balances_moved(*old(self), *final(self), from, to, amount)
                &&& spec_appended_record(
                    old(self).records(),
                    final(self).records(),
                    Some(from),
                    Some(to),
                    amount,
                    TransactionType::Transfer,
                    "transfer"@,
                    timestamp,
                )
                &&& final(self).journal_total() == old(self).journal_total() + amount
            },
    {
        self.move_value(from, to, amount, String::from_str("transfer"), timestamp)
    }

    /// Pays a merchant with the token: the transfer, its journal record
    /// and the payment record apply as one atomic unit. The
    /// caller-supplied order identifier becomes the payment identifier
    /// and the journal record's description; a failed transfer records
    /// nothing.
    pub fn pay_with_xmoney(
        &mut self,
        customer: AccountId,
        merchant: AccountId,
        amount: i128,
        order_id: String,
        timestamp: u64,
    ) -> (outcome: Result<XMoneyPayment, LedgerError>)
        requires
            old(self).wf(),
        ensures
            final(self).wf(),
            final(self).spec_admin() == old(self).spec_admin(),
            final(self).spec_total_supply() == old(self).spec_total_supply(),
            amount <= 0 ==> outcome == Err::<XMoneyPayment, LedgerError>(
                LedgerError::InvalidAmount,
            ) && *final(self) == *old(self),
            amount > 0 && old(self).balance(customer) < amount ==> outcome == Err::<
                XMoneyPayment,
                LedgerError,
            >(LedgerError::InsufficientBalance) && *final(self) == *old(self),
            amount > 0 && old(self).balance(customer) >= amount && old(self).journal_total()
                + amount > MAX_TOTAL_AMOUNT ==> outcome == Err::<XMoneyPayment, LedgerError>(
                LedgerError::StorageFault,
            ) && *final(self) == *old(self),
            amount > 0 && old(self).balance(customer) >= amount && old(self).journal_total()
                + amount <= MAX_TOTAL_AMOUNT ==> (outcome matches Ok(payment) && {
                &&& payment.payment_id == order_id
                &&& payment.from == customer
                &&& payment.to == merchant
                &&& payment.amount == amount
                &&& payment.currency == Currency::XMT
                &&& payment.transaction_hash@ == "XM_TX_HASH"@
                &&& payment.status == PaymentStatus::Completed
                &&& payment.timestamp == timestamp
                &&& final(self).payments() == old(self).payments().push(payment)
                &&& spec_balances_moved(*old(self), *final(self), customer, merchant, amount)
                &&& spec_appended_record(
                    old(self).records(),
                    final(self).records(),
                    Some(customer),
                    Some(merchant),
                    amount,
                    TransactionType::Transfer,
                    order_id@,
                    timestamp,
                )
                &&& final(self).journal_total() == old(self).journal_total() + amount
            }),
    {
        let note = order_id.clone();
        match self.move_value(customer, merchant, amount, note, timestamp) {
            Err(error) => Err(error),
            Ok(()) => {
                let payment = XMoneyPayment {
                    payment_id: order_id,
                    from: customer,
                    to: merchant,
                    amount,
                    currency: Currency::XMT,
                    transaction_hash: String::from_str("XM_TX_HASH"),
                    status: PaymentStatus::Completed,
                    timestamp,
                };
                let stored = payment.clone();
                let ghost mid = *self;
                proof {
                    assert forall|i: int|
                        0 <= i < self.payments@.push(stored).len() implies (
                    #[trigger] self.payments@.push(stored)[i]).amount > 0 by {
                        if i < self.payments@.len() {
                            assert(self.payments@.push(stored)[i] == self.payments@[i]);
                        }
                    }
                }
                self.payments.push(stored);
                proof {
                    assert(self.balances == mid.balances);
                    assert(self.journal == mid.journal);
                    assert forall|k: AccountId|
                        k != customer && k != merchant implies #[trigger] self.balance(k) == old(
                        self,
                    ).balance(k) by {
                        assert(mid.balance(k) == old(self).balance(k));
                    }
                }
                Ok(payment)
            },
        }
    }

    /// Mints `amount` new tokens to `to` and journals exactly one
    /// system-originated record of it (no origin), as a single atomic
    /// unit. Admin-gated; raises the total supply and the recipient
    /// balance together, and fails with `StorageFault` when the bounded
    /// journal cannot take the record.
    pub fn mint(
        &mut self,
        admin: AccountId,
        to: AccountId,
        amount: i128,
        timestamp: u64,
    ) -> (outcome: Result<(), LedgerError>)
        requires
            old(self).wf(),
        ensures
            final(self).wf(),
            final(self).spec_admin() == old(self).spec_admin(),
            final(self).payments() == old(self).payments(),
            admin != old(self).spec_admin() ==> outcome == Err::<(), LedgerError>(
                LedgerError::Unauthorized,
            ) && *final(self) == *old(self),
            admin == old(self).spec_admin() && amount <= 0 ==> outcome == Err::<(), LedgerError>(
                LedgerError::InvalidAmount,
            ) && *final(self) == *old(self),
            admin == old(self).spec_admin() && amount > 0 && old(self).journal_total() + amount
                > MAX_TOTAL_AMOUNT ==> outcome == Err::<(), LedgerError>(LedgerError::StorageFault)
                && *final(self) == *old(self),
            admin == old(self).spec_admin() && amount > 0 && old(self).journal_total() + amount
                <= MAX_TOTAL_AMOUNT ==> outcome == Ok::<(), LedgerError>(()) && {
                &&& final(self).spec_total_supply() == old(self).spec_total_supply() + amount
                &&& final(self).balance(to) == old(self).balance(to) + amount
                &&& (forall|k: AccountId|
                    k != to ==> #[trigger] final(self).balance(k) == old(self).balance(k))
                &&& spec_appended_record(
                    old(self).records(),
                    final(self).records(),
                    None,
                    Some(to),
                    amount,
                    TransactionType::Revenue,
                    "mint"@,
                    timestamp,
                )
                &&& final(self).journal_total() == old(self).journal_total() + amount
            },
    {
        if admin != self.admin {
            return Err(LedgerError::Unauthorized);
        }
        if amount <= 0 {
            return Err(LedgerError::InvalidAmount);
        }
        let ghost records_before = self.journal.records();
        let appended = self.journal.append(
            None,
            Some(to),
            amount,
            TransactionType::Revenue,
            String::from_str("mint"),
            timestamp,
        );
        match appended {
            Err(error) => Err(error),
            Ok(_) => {
                proof {
                    assert(self.journal.records().take(records_before.len() as int)
                        =~= records_before);
                    self.balances.lemma_balance_bounds(to);
                }
                self.balances.add_to(to, amount);
                self.total_supply = self.total_supply + amount;
                Ok(())
            },
        }
    }

    /// Returns the journal records passing `filter`, in insertion order;
    /// fails only on a filter without defined boundary semantics.
    pub fn query(&self, filter: &RecordFilter) -> (outcome: Result<
        Vec<TransactionRecord>,
        LedgerError,
    >)
        ensures
            !filter.spec_valid() ==> outcome == Err::<Vec<TransactionRecord>, LedgerError>(
                LedgerError::InvalidFilter,
            ),
            filter.spec_valid() ==> (outcome matches Ok(selected) && selected@
                == spec_filter_records(self.records(), *filter)),
    {
        self.journal.query(filter)
    }

    /// Returns the payments naming `address` as either party, in
    /// insertion order.
    #[verifier::loop_isolation(false)]
    pub fn get_payment_history(&self, address: AccountId) -> (history: Vec<XMoneyPayment>)
        ensures
            history@ == spec_payments_touching(self.payments(), address),
    {
        let ghost all = self.payments@;
        let mut history: Vec<XMoneyPayment> = Vec::new();
        let n = self.payments.len();
        let mut i: usize = 0;
        proof {
            assert(all.take(0) =~= Seq::<XMoneyPayment>::empty());
            reveal(Seq::filter);
        }
        while i < n
            invariant
                i <= n,
                n == all.len(),
                history@ == spec_payments_touching(all.take(i as int), address),
            decreases n - i,
        {
            proof {
                lemma_payment_filters_step(all, i as int, address);
            }
            let payment = &self.payments[i];
            if payment.from == address || payment.to == address {
                history.push(payment.clone());
            }
            i += 1;
        }
        proof {
            assert(all.take(n as int) =~= all);
        }
        history
    }

    /// Returns the completed payments received by `merchant`, in
    /// insertion order.
    #[verifier::loop_isolation(false)]
    pub fn get_merchant_payments(&self, merchant: AccountId) -> (received: Vec<XMoneyPayment>)
        ensures
            received@ == spec_payments_to_merchant(self.payments(), merchant),
    {
        let ghost all = self.payments@;
        let mut received: Vec<XMoneyPayment> = Vec::new();
        let n = self.payments.len();
        let mut i: usize = 0;
        proof {
            assert(all.take(0) =~= Seq::<XMoneyPayment>::empty());
            reveal(Seq::filter);
        }
        while i < n
            invariant
                i <= n,
                n == all.len(),
                received@ == spec_payments_to_merchant(all.take(i as int), merchant),
            decreases n - i,
        {
            proof {
                lemma_payment_filters_step(all, i as int, merchant);
            }
            let payment = &self.payments[i];
            let completed = match payment.status {
                PaymentStatus::Completed => true,
                _ => false,
            };
            if payment.to == merchant && completed {
                received.push(payment.clone());
            }
            i += 1;
        }
        proof {
            assert(all.take(n as int) =~= all);
        }
        received
    }

    /// Returns the payments made by `customer`, in insertion order.
    #[verifier::loop_isolation(false)]
    pub fn get_customer_payments(&self, customer: AccountId) -> (made: Vec<XMoneyPayment>)
        ensures
            made@ == spec_payments_by_customer(self.payments(), customer),
    {
        let ghost all = self.payments@;
        let mut made: Vec<XMoneyPayment> = Vec::new();
        let n = self.payments.len();
        let mut i: usize = 0;
        proof {
            assert(all.take(0) =~= Seq::<XMoneyPayment>::empty());
            reveal(Seq::filter);
        }
        while i < n
            invariant
                i <= n,
                n == all.len(),
                made@ == spec_payments_by_customer(all.take(i as int), customer),
            decreases n - i,
        {
            proof {
                lemma_payment_filters_step(all, i as int, customer);
            }
            let payment = &self.payments[i];
            if payment.from == customer {
                made.push(payment.clone());
            }
            i += 1;
        }
        proof {
            assert(all.take(n as int) =~= all);
        }
        made
    }

    /// The greeting of this system.
    pub fn hello(&self) -> (greeting: String)
        ensures
            greeting@ == "Hello from XMoney Token!"@,
    {
        String::from_str("Hello from XMoney Token!")
    }
}

} // verus!
