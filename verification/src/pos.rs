//! The point-of-sale system: validated sale records with per-method
//! revenue aggregation.
//!
//! A sale is one atomic unit: the item lines are validated, the totals are
//! computed from them, and exactly one sale record is appended — or
//! nothing happens and one specific error kind is returned.

use vstd::prelude::*;
use crate::{AccountId, MAX_TOTAL_AMOUNT};

verus! {

/// Why a sale operation was refused.
#[derive(Clone, Copy, Debug, PartialEq, Eq, Structural)]
pub enum PosError {
    /// An item line or the final amount is not strictly positive.
    InvalidAmount,
    /// No sale exists under the given identifier.
    SaleNotFound,
    /// The bounded revenue counters cannot take the sale; nothing
    /// committed.
    StorageFault,
}

/// How a sale was paid.
#[derive(Clone, Copy, Debug, PartialEq, Eq, Structural)]
pub enum PaymentMethod {
    Cash,
    CreditCard,
    BankTransfer,
    Crypto,
    LoyaltyPoints,
}

/// One item line of a sale.
#[derive(Debug)]
pub struct SaleItem {
    pub sku: String,
    pub name: String,
    pub quantity: u32,
    pub unit_price: i128,
    /// The line total; strictly positive.
    pub total_price: i128,
}

impl Clone for SaleItem {
    fn clone(&self) -> (other: Self)
        ensures
            other == *self,
    {
        SaleItem {
            sku: self.sku.clone(),
            name: self.name.clone(),
            quantity: self.quantity,
            unit_price: self.unit_price,
            total_price: self.total_price,
        }
    }
}

/// One recorded sale.
#[derive(Debug)]
pub struct Sale {
    /// Sequence number assigned by the system: the sale's position in
    /// insertion order.
    pub sale_id: u64,
    /// The cashier who rang the sale up; the authenticated principal.
    pub cashier: AccountId,
    /// The buying customer, when known.
    pub customer: Option<AccountId>,
    /// The item lines.
    pub items: Vec<SaleItem>,
    /// The sum of the item line totals.
    pub total_amount: i128,
    /// The discount applied; a non-positive discount is ignored.
    pub discount: i128,
    /// The charged amount after discount; strictly positive.
    pub final_amount: i128,
    pub payment_method: PaymentMethod,
    /// Logical timestamp supplied by the caller's clock source.
    pub timestamp: u64,
}

/// Whether two sales agree on every field (item lines compared as
/// sequences).
pub open spec fn spec_sale_eq(a: Sale, b: Sale) -> bool {
    &&& a.sale_id == b.sale_id
    &&& a.cashier == b.cashier
    &&& a.customer == b.customer
    &&& a.items@ == b.items@
    &&& a.total_amount == b.total_amount
    &&& a.discount == b.discount
    &&& a.final_amount == b.final_amount
    &&& a.payment_method == b.payment_method
    &&& a.timestamp == b.timestamp
}

/// Whether two sale sequences agree element by element.
pub open spec fn spec_sales_eq(a: Seq<Sale>, b: Seq<Sale>) -> bool {
    a.len() == b.len() && (forall|i: int| 0 <= i < a.len() ==> spec_sale_eq(#[trigger] a[i], b[i]))
}

impl Clone for Sale {
    fn clone(&self) -> (other: Self)
        ensures
            spec_sale_eq(other, *self),
    {
        let items = self.items.clone();
        proof {
            assert(items@ =~= self.items@);
        }
        Sale {
            sale_id: self.sale_id,
            cashier: self.cashier,
            customer: self.customer,
            items,
            total_amount: self.total_amount,
            discount: self.discount,
            final_amount: self.final_amount,
            payment_method: self.payment_method,
            timestamp: self.timestamp,
        }
    }
}

/// The sum of the item line totals.
pub open spec fn spec_sum_prices(items: Seq<SaleItem>) -> int
    decreases items.len(),
{
    if items.len() == 0 {
        0
    } else {
        items.first().total_price + spec_sum_prices(items.drop_first())
    }
}

/// Every item line total is strictly positive.
pub open spec fn spec_items_positive(items: Seq<SaleItem>) -> bool {
    forall|i: int| 0 <= i < items.len() ==> (#[trigger] items[i]).total_price > 0
}

/// The charged amount: the total less the discount when the discount is
/// positive, the total unchanged otherwise.
pub open spec fn spec_final_amount(total: int, discount: i128) -> int {
    if discount > 0 {
        total - discount
    } else {
        total
    }
}

/// Appending an item line adds its total to the sum.
pub proof fn lemma_sum_prices_push(items: Seq<SaleItem>, item: SaleItem)
    ensures
        spec_sum_prices(items.push(item)) == spec_sum_prices(items) + item.total_price,
    decreases items.len(),
{
    let p = items.push(item);
    if items.len() == 0 {
        assert(p.first() == item);
        assert(p.drop_first() =~= Seq::<SaleItem>::empty());
        assert(spec_sum_prices(p) == item.total_price + spec_sum_prices(p.drop_first()));
    } else {
        assert(p.first() == items.first());
        assert(p.drop_first() =~= items.drop_first().push(item));
        lemma_sum_prices_push(items.drop_first(), item);
        assert(spec_sum_prices(p) == p.first().total_price + spec_sum_prices(p.drop_first()));
        assert(spec_sum_prices(items) == items.first().total_price + spec_sum_prices(
            items.drop_first(),
        ));
    }
}

/// With positive line totals, the sum over a prefix never exceeds the sum
/// over all lines.
pub proof fn lemma_sum_prices_prefix(items: Seq<SaleItem>, n: int)
    requires
        spec_items_positive(items),
        0 <= n <= items.len(),
    ensures
        0 <= spec_sum_prices(items.take(n)),
        spec_sum_prices(items.take(n)) <= spec_sum_prices(items),
    decreases items.len(),
{
    if items.len() == 0 {
        assert(items.take(n) =~= items);
    } else {
        assert(items[0].total_price > 0);
        assert forall|i: int|
            0 <= i < items.drop_first().len() implies (
        #[trigger] items.drop_first()[i]).total_price > 0 by {
            assert(items.drop_first()[i] == items[i + 1]);
        }
        if n == 0 {
            assert(items.take(0) =~= Seq::<SaleItem>::empty());
            lemma_sum_prices_prefix(items.drop_first(), 0);
        } else {
            assert(items.take(n).first() == items.first());
            assert(items.take(n).drop_first() =~= items.drop_first().take(n - 1));
            lemma_sum_prices_prefix(items.drop_first(), n - 1);
        }
    }
}

/// The sum of the charged amounts of all sales.
pub open spec fn spec_sum_final(sales: Seq<Sale>) -> int
    decreases sales.len(),
{
    if sales.len() == 0 {
        0
    } else {
        sales.first().final_amount + spec_sum_final(sales.drop_first())
    }
}

/// The sum of the charged amounts of the sales paid with the given
/// method.
pub open spec fn spec_sum_by_method(sales: Seq<Sale>, method: PaymentMethod) -> int
    decreases sales.len(),
{
    if sales.len() == 0 {
        0
    } else {
        (if sales.first().payment_method == method {
            sales.first().final_amount as int
        } else {
            0
        }) + spec_sum_by_method(sales.drop_first(), method)
    }
}

/// Every sale's charged amount is strictly positive.
pub open spec fn spec_finals_positive(sales: Seq<Sale>) -> bool {
    forall|i: int| 0 <= i < sales.len() ==> (#[trigger] sales[i]).final_amount > 0
}

/// Appending a sale adds its charged amount to the total and, for its own
/// payment method, to that method's sum.
pub proof fn lemma_sale_sums_push(sales: Seq<Sale>, sale: Sale, method: PaymentMethod)
    ensures
        spec_sum_final(sales.push(sale)) == spec_sum_final(sales) + sale.final_amount,
        spec_sum_by_method(sales.push(sale), method) == spec_sum_by_method(sales, method) + (
        if sale.payment_method == method {
            sale.final_amount as int
        } else {
            0
        }),
    decreases sales.len(),
{
    let p = sales.push(sale);
    if sales.len() == 0 {
        assert(p.first() == sale);
        assert(p.drop_first() =~= Seq::<Sale>::empty());
        assert(spec_sum_final(p) == sale.final_amount + spec_sum_final(p.drop_first()));
        assert(spec_sum_by_method(p, method) == (if sale.payment_method == method {
            sale.final_amount as int
        } else {
            0
        }) + spec_sum_by_method(p.drop_first(), method));
    } else {
        assert(p.first() == sales.first());
        assert(p.drop_first() =~= sales.drop_first().push(sale));
        lemma_sale_sums_push(sales.drop_first(), sale, method);
        assert(spec_sum_final(p) == p.first().final_amount + spec_sum_final(p.drop_first()));
        assert(spec_sum_final(sales) == sales.first().final_amount + spec_sum_final(
            sales.drop_first(),
        ));
        assert(spec_sum_by_method(p, method) == (if p.first().payment_method == method {
            p.first().final_amount as int
        } else {
            0
        }) + spec_sum_by_method(p.drop_first(), method));
        assert(spec_sum_by_method(sales, method) == (if sales.first().payment_method == method {
            sales.first().final_amount as int
        } else {
            0
        }) + spec_sum_by_method(sales.drop_first(), method));
    }
}

/// With positive charged amounts, every per-method sum lies between zero
/// and the total, and prefix totals never exceed the whole.
pub proof fn lemma_sale_sums_bounds(sales: Seq<Sale>, method: PaymentMethod, n: int)
    requires
        spec_finals_positive(sales),
        0 <= n <= sales.len(),
    ensures
        0 <= spec_sum_by_method(sales, method) <= spec_sum_final(sales),
        0 <= spec_sum_final(sales.take(n)) <= spec_sum_final(sales),
    decreases sales.len(),
{
    if sales.len() == 0 {
        assert(sales.take(n) =~= sales);
    } else {
        assert(sales[0].final_amount > 0);
        assert forall|i: int|
            0 <= i < sales.drop_first().len() implies (
        #[trigger] sales.drop_first()[i]).final_amount > 0 by {
            assert(sales.drop_first()[i] == sales[i + 1]);
        }
        if n == 0 {
            assert(sales.take(0) =~= Seq::<Sale>::empty());
            lemma_sale_sums_bounds(sales.drop_first(), method, 0);
        } else {
            assert(sales.take(n).first() == sales.first());
            assert(sales.take(n).drop_first() =~= sales.drop_first().take(n - 1));
            lemma_sale_sums_bounds(sales.drop_first(), method, n - 1);
        }
    }
}

/// Whether a sale was rung up by the cashier.
pub open spec fn spec_sale_by_cashier(sale: Sale, cashier: AccountId) -> bool {
    sale.cashier == cashier
}

/// Whether a sale was bought by the customer.
pub open spec fn spec_sale_by_customer(sale: Sale, customer: AccountId) -> bool {
    sale.customer == Some(customer)
}

/// The sales rung up by the cashier, in insertion order.
pub open spec fn spec_sales_by_cashier(sales: Seq<Sale>, cashier: AccountId) -> Seq<Sale> {
    sales.filter(|sale: Sale| spec_sale_by_cashier(sale, cashier))
}

/// The sales bought by the customer, in insertion order.
pub open spec fn spec_sales_by_customer(sales: Seq<Sale>, customer: AccountId) -> Seq<Sale> {
    sales.filter(|sale: Sale| spec_sale_by_customer(sale, customer))
}

/// Extending the scanned prefix by one sale extends each filtered view
/// exactly when the sale passes that view's test.
pub proof fn lemma_sale_filters_step(sales: Seq<Sale>, i: int, account: AccountId)
    requires
        0 <= i < sales.len(),
    ensures
        spec_sales_by_cashier(sales.take(i + 1), account) == if spec_sale_by_cashier(
            sales[i],
            account,
        ) {
            spec_sales_by_cashier(sales.take(i), account).push(sales[i])
        } else {
            spec_sales_by_cashier(sales.take(i), account)
        },
        spec_sales_by_customer(sales.take(i + 1), account) == if spec_sale_by_customer(
            sales[i],
            account,
        ) {
            spec_sales_by_customer(sales.take(i), account).push(sales[i])
        } else {
            spec_sales_by_customer(sales.take(i), account)
        },
{
    reveal(Seq::filter);
    let prefix = sales.take(i + 1);
    assert(prefix.last() == sales[i]);
    assert(prefix.drop_last() =~= sales.take(i));
}

/// Pushing element-wise equal sales onto element-wise equal sequences
/// keeps them element-wise equal.
pub proof fn lemma_sales_eq_push(a: Seq<Sale>, b: Seq<Sale>, x: Sale, y: Sale)
    requires
        spec_sales_eq(a, b),
        spec_sale_eq(x, y),
    ensures
        spec_sales_eq(a.push(x), b.push(y)),
{
    assert forall|i: int|
        0 <= i < a.push(x).len() implies spec_sale_eq(#[trigger] a.push(x)[i], b.push(y)[i]) by {
        if i < a.len() {
            assert(a.push(x)[i] == a[i]);
            assert(b.push(y)[i] == b[i]);
        } else {
            assert(a.push(x)[i] == x);
            assert(b.push(y)[i] == y);
        }
    }
}

/// The point-of-sale instance: the configured administrator, the recorded
/// sales, and a cached revenue total used to bound aggregates.
pub struct PosSystem {
    admin: AccountId,
    sales: Vec<Sale>,
    revenue_total: i128,
}

impl PosSystem {
    /// The configured administrator identity.
    pub closed spec fn spec_admin(&self) -> AccountId {
        self.admin
    }

    /// The recorded sales in insertion order.
    pub closed spec fn sales(&self) -> Seq<Sale> {
        self.sales@
    }

    /// The sum of all charged amounts.
    pub closed spec fn total_revenue(&self) -> int {
        spec_sum_final(self.sales@)
    }

    /// Sale ids are their insertion positions, charged amounts are
    /// strictly positive and bounded in sum, and the cached total agrees
    /// with the records.
    pub closed spec fn wf(&self) -> bool {
        &&& (forall|i: int|
            0 <= i < self.sales@.len() ==> (#[trigger] self.sales@[i]).sale_id == i)
        &&& spec_finals_positive(self.sales@)
        &&& spec_sum_final(self.sales@) <= MAX_TOTAL_AMOUNT
        &&& self.revenue_total == spec_sum_final(self.sales@)
    }

    /// A fresh point-of-sale system with no recorded sales.
    pub fn initialize(admin: AccountId) -> (system: Self)
        ensures
            system.wf(),
            system.spec_admin() == admin,
            system.sales() == Seq::<Sale>::empty(),
            system.total_revenue() == 0,
    {
        PosSystem { admin, sales: Vec::new(), revenue_total: 0 }
    }

    /// Rings up a sale as one atomic unit: validates every item line,
    /// computes the totals, applies the discount (a non-positive discount
    /// is ignored), and appends exactly one sale record — or commits
    /// nothing. The cashier is the authenticated principal.
    #[verifier::loop_isolation(false)]
    pub fn create_sale(
        &mut self,
        cashier: AccountId,
        customer: Option<AccountId>,
        items: Vec<SaleItem>,
        discount: i128,
        payment_method: PaymentMethod,
        timestamp: u64,
    ) -> (outcome: Result<Sale, PosError>)
        requires
            old(self).wf(),
        ensures
            final(self).wf(),
            final(self).spec_admin() == old(self).spec_admin(),
            !spec_items_positive(items@) ==> outcome == Err::<Sale, PosError>(
                PosError::InvalidAmount,
            ) && *final(self) == *old(self),
            spec_items_positive(items@) && spec_sum_prices(items@) > MAX_TOTAL_AMOUNT ==> outcome
                == Err::<Sale, PosError>(PosError::StorageFault) && *final(self) == *old(self),
            spec_items_positive(items@) && spec_sum_prices(items@) <= MAX_TOTAL_AMOUNT
                && spec_final_amount(spec_sum_prices(items@), discount) <= 0 ==> outcome == Err::<
                Sale,
                PosError,
            >(PosError::InvalidAmount) && *final(self) == *old(self),
            spec_items_positive(items@) && spec_sum_prices(items@) <= MAX_TOTAL_AMOUNT
                && spec_final_amount(spec_sum_prices(items@), discount) > 0 && old(
                self,
            ).total_revenue() + spec_final_amount(spec_sum_prices(items@), discount)
                > MAX_TOTAL_AMOUNT ==> outcome == Err::<Sale, PosError>(PosError::StorageFault)
                && *final(self) == *old(self),
            spec_items_positive(items@) && spec_sum_prices(items@) <= MAX_TOTAL_AMOUNT
                && spec_final_amount(spec_sum_prices(items@), discount) > 0 && old(
                self,
            ).total_revenue() + spec_final_amount(spec_sum_prices(items@), discount)
                <= MAX_TOTAL_AMOUNT ==> (outcome matches Ok(sale) && {
                let recorded = (Sale {
                    sale_id: old(self).sales().len() as u64,
                    cashier,
                    customer,
                    items,
                    total_amount: spec_sum_prices(items@) as i128,
                    discount,
                    final_amount: spec_final_amount(spec_sum_prices(items@), discount) as i128,
                    payment_method,
                    timestamp,
                });
                &&& spec_sale_eq(sale, recorded)
                &&& final(self).sales() == old(self).sales().push(recorded)
                &&& final(self).total_revenue() == old(self).total_revenue()
                    + recorded.final_amount
            }),
    {
        let item_count = items.len();
        let mut i: usize = 0;
        while i < item_count
            invariant
                i <= item_count,
                item_count == items@.len(),
                forall|j: int| 0 <= j < i ==> (#[trigger] items@[j]).total_price > 0,
                *self == *old(self),
            decreases item_count - i,
        {
            if items[i].total_price <= 0 {
                return Err(PosError::InvalidAmount);
            }
            i += 1;
        }
        let mut total_amount: i128 = 0;
        let mut k: usize = 0;
        proof {
            assert(items@.take(0) =~= Seq::<SaleItem>::empty());
        }
        while k < item_count
            invariant
                k <= item_count,
                item_count == items@.len(),
                spec_items_positive(items@),
                total_amount == spec_sum_prices(items@.take(k as int)),
                0 <= total_amount <= MAX_TOTAL_AMOUNT,
                *self == *old(self),
            decreases item_count - k,
        {
            proof {
                assert(items@.take(k as int).push(items@[k as int]) =~= items@.take(k + 1));
                lemma_sum_prices_push(items@.take(k as int), items@[k as int]);
                lemma_sum_prices_prefix(items@, k + 1);
            }
            let price = items[k].total_price;
            if price > MAX_TOTAL_AMOUNT - total_amount {
                return Err(PosError::StorageFault);
            }
            total_amount = total_amount + price;
            k += 1;
        }
        proof {
            assert(items@.take(item_count as int) =~= items@);
        }
        let final_amount: i128 = if discount > 0 {
            total_amount - discount
        } else {
            total_amount
        };
        if final_amount <= 0 {
            return Err(PosError::InvalidAmount);
        }
        proof {
            lemma_sale_sums_bounds(self.sales@, PaymentMethod::Cash, 0);
        }
        if final_amount > MAX_TOTAL_AMOUNT - self.revenue_total {
            return Err(PosError::StorageFault);
        }
        let sale = Sale {
            sale_id: self.sales.len() as u64,
            cashier,
            customer,
            items,
            total_amount,
            discount,
            final_amount,
            payment_method,
            timestamp,
        };
        let returned = sale.clone();
        proof {
            lemma_sale_sums_push(self.sales@, sale, PaymentMethod::Cash);
            let p = self.sales@.push(sale);
            assert forall|j: int| 0 <= j < p.len() implies (#[trigger] p[j]).sale_id == j by {
                if j < self.sales@.len() {
                    assert(p[j] == self.sales@[j]);
                }
            }
            assert forall|j: int| 0 <= j < p.len() implies (#[trigger] p[j]).final_amount > 0 by {
                if j < self.sales@.len() {
                    assert(p[j] == self.sales@[j]);
                }
            }
        }
        self.revenue_total = self.revenue_total + final_amount;
        self.sales.push(sale);
        Ok(returned)
    }

    /// Reads a sale by its sequence number.
    pub fn get_sale(&self, sale_id: u64) -> (outcome: Result<Sale, PosError>)
        requires
            self.wf(),
        ensures
            sale_id >= self.sales().len() ==> outcome == Err::<Sale, PosError>(
                PosError::SaleNotFound,
            ),
            sale_id < self.sales().len() ==> (outcome matches Ok(sale) && spec_sale_eq(
                sale,
                self.sales()[sale_id as int],
            )),
    {
        if sale_id < self.sales.len() as u64 {
            Ok(self.sales[sale_id as usize].clone())
        } else {
            Err(PosError::SaleNotFound)
        }
    }

    /// Returns the sales rung up by the cashier, in insertion order.
    #[verifier::loop_isolation(false)]
    pub fn get_sales_by_cashier(&self, cashier: AccountId) -> (selected: Vec<Sale>)
        ensures
            spec_sales_eq(selected@, spec_sales_by_cashier(self.sales(), cashier)),
    {
        let ghost all = self.sales@;
        let mut selected: Vec<Sale> = Vec::new();
        let n = self.sales.len();
        let mut i: usize = 0;
        proof {
            assert(all.take(0) =~= Seq::<Sale>::empty());
            reveal(Seq::filter);
        }
        while i < n
            invariant
                i <= n,
                n == all.len(),
                spec_sales_eq(selected@, spec_sales_by_cashier(all.take(i as int), cashier)),
            decreases n - i,
        {
            proof {
                lemma_sale_filters_step(all, i as int, cashier);
            }
            let sale = &self.sales[i];
            if sale.cashier == cashier {
                let kept = sale.clone();
                proof {
                    lemma_sales_eq_push(
                        selected@,
                        spec_sales_by_cashier(all.take(i as int), cashier),
                        kept,
                        all[i as int],
                    );
                }
                selected.push(kept);
            }
            i += 1;
        }
        proof {
            assert(all.take(n as int) =~= all);
        }
        selected
    }

    /// Returns the sales bought by the customer, in insertion order.
    #[verifier::loop_isolation(false)]
    pub fn get_sales_by_customer(&self, customer: AccountId) -> (selected: Vec<Sale>)
        ensures
            spec_sales_eq(selected@, spec_sales_by_customer(self.sales(), customer)),
    {
        let ghost all = self.sales@;
        let mut selected: Vec<Sale> = Vec::new();
        let n = self.sales.len();
        let mut i: usize = 0;
        proof {
            assert(all.take(0) =~= Seq::<Sale>::empty());
            reveal(Seq::filter);
        }
        while i < n
            invariant
                i <= n,
                n == all.len(),
                spec_sales_eq(selected@, spec_sales_by_customer(all.take(i as int), customer)),
            decreases n - i,
        {
            proof {
                lemma_sale_filters_step(all, i as int, customer);
            }
            let sale = &self.sales[i];
            let bought = match sale.customer {
                Some(buyer) => buyer == customer,
                None => false,
            };
            if bought {
                let kept = sale.clone();
                proof {
                    lemma_sales_eq_push(
                        selected@,
                        spec_sales_by_customer(all.take(i as int), customer),
                        kept,
                        all[i as int],
                    );
                }
                selected.push(kept);
            }
            i += 1;
        }
        proof {
            assert(all.take(n as int) =~= all);
        }
        selected
    }

    /// Returns every recorded sale, in insertion order. The date argument
    /// names the business day the caller asks about; the record keeps no
    /// calendar, so the whole history is returned.
    #[verifier::loop_isolation(false)]
    pub fn get_daily_sales(&self, date: &String) -> (listed: Vec<Sale>)
        ensures
            spec_sales_eq(listed@, self.sales()),
    {
        let ghost all = self.sales@;
        let mut listed: Vec<Sale> = Vec::new();
        let n = self.sales.len();
        let mut i: usize = 0;
        while i < n
            invariant
                i <= n,
                n == all.len(),
                spec_sales_eq(listed@, all.take(i as int)),
            decreases n - i,
        {
            let kept = self.sales[i].clone();
            proof {
                assert(all.take(i as int).push(all[i as int]) =~= all.take(i + 1));
                lemma_sales_eq_push(listed@, all.take(i as int), kept, all[i as int]);
            }
            listed.push(kept);
            i += 1;
        }
        proof {
            assert(all.take(n as int) =~= all);
        }
        listed
    }

    /// How many sales are recorded.
    pub fn get_total_sales_count(&self) -> (count: usize)
        ensures
            count == self.sales().len(),
    {
        self.sales.len()
    }

    /// The sum of all charged amounts.
    pub fn get_total_revenue(&self) -> (total: i128)
        requires
            self.wf(),
        ensures
            total == self.total_revenue(),
    {
        self.revenue_total
    }

    /// The revenue charged through each payment method, in a fixed
    /// method order.
    #[verifier::loop_isolation(false)]
    pub fn get_payment_method_stats(&self) -> (stats: Vec<(PaymentMethod, i128)>)
        requires
            self.wf(),
        ensures
            stats@.len() == 5,
            stats@[0].0 == PaymentMethod::Cash && stats@[0].1 == spec_sum_by_method(
                self.sales(),
                PaymentMethod::Cash,
            ),
            stats@[1].0 == PaymentMethod::CreditCard && stats@[1].1 == spec_sum_by_method(
                self.sales(),
                PaymentMethod::CreditCard,
            ),
            stats@[2].0 == PaymentMethod::BankTransfer && stats@[2].1 == spec_sum_by_method(
                self.sales(),
                PaymentMethod::BankTransfer,
            ),
            stats@[3].0 == PaymentMethod::Crypto && stats@[3].1 == spec_sum_by_method(
                self.sales(),
                PaymentMethod::Crypto,
            ),
            stats@[4].0 == PaymentMethod::LoyaltyPoints && stats@[4].1 == spec_sum_by_method(
                self.sales(),
                PaymentMethod::LoyaltyPoints,
            ),
    {
        let ghost all = self.sales@;
        let n = self.sales.len();
        let mut cash: i128 = 0;
        let mut card: i128 = 0;
        let mut transfer: i128 = 0;
        let mut crypto: i128 = 0;
        let mut loyalty: i128 = 0;
        let mut i: usize = 0;
        proof {
            assert(all.take(0) =~= Seq::<Sale>::empty());
        }
        while i < n
            invariant
                i <= n,
                n == all.len(),
                cash == spec_sum_by_method(all.take(i as int), PaymentMethod::Cash),
                card == spec_sum_by_method(all.take(i as int), PaymentMethod::CreditCard),
                transfer == spec_sum_by_method(all.take(i as int), PaymentMethod::BankTransfer),
                crypto == spec_sum_by_method(all.take(i as int), PaymentMethod::Crypto),
                loyalty == spec_sum_by_method(all.take(i as int), PaymentMethod::LoyaltyPoints),
            decreases n - i,
        {
            proof {
                assert(all.take(i as int).push(all[i as int]) =~= all.take(i + 1));
                lemma_sale_sums_push(all.take(i as int), all[i as int], PaymentMethod::Cash);
                lemma_sale_sums_push(all.take(i as int), all[i as int], PaymentMethod::CreditCard);
                lemma_sale_sums_push(
                    all.take(i as int),
                    all[i as int],
                    PaymentMethod::BankTransfer,
                );
                lemma_sale_sums_push(all.take(i as int), all[i as int], PaymentMethod::Crypto);
                lemma_sale_sums_push(
                    all.take(i as int),
                    all[i as int],
                    PaymentMethod::LoyaltyPoints,
                );
                assert forall|j: int|
                    0 <= j < all.take(i + 1).len() implies (
                #[trigger] all.take(i + 1)[j]).final_amount > 0 by {
                    assert(all.take(i + 1)[j] == all[j]);
                }
                assert forall|j: int|
                    0 <= j < all.take(i as int).len() implies (
                #[trigger] all.take(i as int)[j]).final_amount > 0 by {
                    assert(all.take(i as int)[j] == all[j]);
                }
                lemma_sale_sums_bounds(all.take(i + 1), PaymentMethod::Cash, 0);
                lemma_sale_sums_bounds(all.take(i + 1), PaymentMethod::CreditCard, 0);
                lemma_sale_sums_bounds(all.take(i + 1), PaymentMethod::BankTransfer, 0);
                lemma_sale_sums_bounds(all.take(i + 1), PaymentMethod::Crypto, 0);
                lemma_sale_sums_bounds(all.take(i + 1), PaymentMethod::LoyaltyPoints, 0);
                lemma_sale_sums_bounds(all.take(i as int), PaymentMethod::Cash, 0);
                lemma_sale_sums_bounds(all.take(i as int), PaymentMethod::CreditCard, 0);
                lemma_sale_sums_bounds(all.take(i as int), PaymentMethod::BankTransfer, 0);
                lemma_sale_sums_bounds(all.take(i as int), PaymentMethod::Crypto, 0);
                lemma_sale_sums_bounds(all.take(i as int), PaymentMethod::LoyaltyPoints, 0);
                lemma_sale_sums_bounds(all, PaymentMethod::Cash, i + 1);
            }
            let sale = &self.sales[i];
            match sale.payment_method {
                PaymentMethod::Cash => {
                    cash = cash + sale.final_amount;
                },
                PaymentMethod::CreditCard => {
                    card = card + sale.final_amount;
                },
                PaymentMethod::BankTransfer => {
                    transfer = transfer + sale.final_amount;
                },
                PaymentMethod::Crypto => {
                    crypto = crypto + sale.final_amount;
                },
                PaymentMethod::LoyaltyPoints => {
                    loyalty = loyalty + sale.final_amount;
                },
            }
            i += 1;
        }
        proof {
            assert(all.take(n as int) =~= all);
        }
        let mut stats: Vec<(PaymentMethod, i128)> = Vec::new();
        stats.push((PaymentMethod::Cash, cash));
        stats.push((PaymentMethod::CreditCard, card));
        stats.push((PaymentMethod::BankTransfer, transfer));
        stats.push((PaymentMethod::Crypto, crypto));
        stats.push((PaymentMethod::LoyaltyPoints, loyalty));
        stats
    }

    /// The greeting of this system.
    pub fn hello(&self) -> (greeting: String)
        ensures
            greeting@ == "Hello from POS System!"@,
    {
        String::from_str("Hello from POS System!")
    }
}

} // verus!
