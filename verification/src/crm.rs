//! The customer relationship system: customer profiles with cumulative
//! purchase figures and a tier classification derived from them.
//!
//! Registration is admin-gated; profile updates are self-gated patches
//! whose fields are each either "leave unchanged" or "set to value".
//! Recording a purchase updates the cumulative figures and reclassifies
//! the customer's tier immediately, so the stored tier always equals the
//! classifier applied to the stored cumulative spend.

use vstd::prelude::*;
use crate::AccountId;
use crate::MAX_TOTAL_AMOUNT;
use crate::tier::{classify_spend, tier_of, CustomerTier};

verus! {

/// Why a customer operation was refused.
#[derive(Clone, Copy, Debug, PartialEq, Eq, Structural)]
pub enum CrmError {
    /// The principal is not the configured administrator.
    Unauthorized,
    /// No customer is registered under the given wallet address.
    CustomerNotFound,
    /// A customer is already registered under the wallet address.
    DuplicateCustomer,
    /// A non-positive amount was presented.
    InvalidAmount,
    /// A cumulative counter cannot take the mutation; nothing committed.
    StorageFault,
}

/// The notification and recommendation channels a customer can opt into.
#[derive(Clone, Copy, Debug, PartialEq, Eq, Structural)]
pub enum Preference {
    EmailNotifications,
    SMSNotifications,
    ProductRecommendations,
    SpecialOffers,
    NewArrivalAlerts,
}

/// The set of preferences a customer holds, one flag per preference.
#[derive(Clone, Copy, Debug, PartialEq, Eq, Structural)]
pub struct PreferenceSet {
    pub email_notifications: bool,
    pub sms_notifications: bool,
    pub product_recommendations: bool,
    pub special_offers: bool,
    pub new_arrival_alerts: bool,
}

impl PreferenceSet {
    /// The empty preference set.
    pub fn none() -> (set: Self)
        ensures
            set == (PreferenceSet {
                email_notifications: false,
                sms_notifications: false,
                product_recommendations: false,
                special_offers: false,
                new_arrival_alerts: false,
            }),
    {
        PreferenceSet {
            email_notifications: false,
            sms_notifications: false,
            product_recommendations: false,
            special_offers: false,
            new_arrival_alerts: false,
        }
    }

    /// The default preferences of a newly registered customer: email
    /// notifications and special offers.
    pub fn default_for_new_customer() -> (set: Self)
        ensures
            set == (PreferenceSet {
                email_notifications: true,
                sms_notifications: false,
                product_recommendations: false,
                special_offers: true,
                new_arrival_alerts: false,
            }),
    {
        PreferenceSet {
            email_notifications: true,
            sms_notifications: false,
            product_recommendations: false,
            special_offers: true,
            new_arrival_alerts: false,
        }
    }

    /// Whether the set holds the given preference.
    pub open spec fn spec_holds(self, preference: Preference) -> bool {
        match preference {
            Preference::EmailNotifications => self.email_notifications,
            Preference::SMSNotifications => self.sms_notifications,
            Preference::ProductRecommendations => self.product_recommendations,
            Preference::SpecialOffers => self.special_offers,
            Preference::NewArrivalAlerts => self.new_arrival_alerts,
        }
    }

    /// Checks whether the set holds the given preference.
    pub fn holds(&self, preference: Preference) -> (held: bool)
        ensures
            held == self.spec_holds(preference),
    {
        match preference {
            Preference::EmailNotifications => self.email_notifications,
            Preference::SMSNotifications => self.sms_notifications,
            Preference::ProductRecommendations => self.product_recommendations,
            Preference::SpecialOffers => self.special_offers,
            Preference::NewArrivalAlerts => self.new_arrival_alerts,
        }
    }
}

/// The lifecycle state of a customer.
#[derive(Clone, Copy, Debug, PartialEq, Eq, Structural)]
pub enum CustomerStatus {
    Active,
    Inactive,
    VIP,
    Blocked,
}

/// A customer profile with its cumulative purchase figures.
#[derive(Debug)]
pub struct Customer {
    /// Sequence number assigned at registration.
    pub customer_id: u64,
    /// The customer's wallet address; unique per customer.
    pub wallet_address: AccountId,
    pub name: String,
    pub email: String,
    pub phone: String,
    /// Timestamp of registration, from the caller's clock source.
    pub join_date: u64,
    /// Cumulative spend to date; only ever increases.
    pub total_spent: i128,
    /// Number of recorded purchases.
    pub total_orders: u64,
    /// Loyalty points: one point per ten thousand units spent, plus
    /// points granted directly.
    pub loyalty_points: u64,
    /// The tier derived from the cumulative spend.
    pub customer_tier: CustomerTier,
    /// The notification channels the customer opted into.
    pub preferences: PreferenceSet,
    /// Timestamp of the latest purchase; zero before the first one.
    pub last_purchase_date: u64,
    pub status: CustomerStatus,
}

impl Clone for Customer {
    fn clone(&self) -> (other: Self)
        ensures
            other == *self,
    {
        Customer {
            customer_id: self.customer_id,
            wallet_address: self.wallet_address,
            name: self.name.clone(),
            email: self.email.clone(),
            phone: self.phone.clone(),
            join_date: self.join_date,
            total_spent: self.total_spent,
            total_orders: self.total_orders,
            loyalty_points: self.loyalty_points,
            customer_tier: self.customer_tier,
            preferences: self.preferences,
            last_purchase_date: self.last_purchase_date,
            status: self.status,
        }
    }
}

/// A patch to a customer profile: each field is either "leave unchanged"
/// (`None`) or "set to value" (`Some`), applied field by field, never
/// partially.
pub struct CustomerUpdate {
    pub name: Option<String>,
    pub email: Option<String>,
    pub phone: Option<String>,
    pub preferences: Option<PreferenceSet>,
    pub status: Option<CustomerStatus>,
}

/// The customer as it stands after a patch is applied.
pub open spec fn spec_apply_update(customer: Customer, updates: CustomerUpdate) -> Customer {
    (Customer {
        name: if updates.name is Some {
            updates.name->Some_0
        } else {
            customer.name
        },
        email: if updates.email is Some {
            updates.email->Some_0
        } else {
            customer.email
        },
        phone: if updates.phone is Some {
            updates.phone->Some_0
        } else {
            customer.phone
        },
        preferences: if updates.preferences is Some {
            updates.preferences->Some_0
        } else {
            customer.preferences
        },
        status: if updates.status is Some {
            updates.status->Some_0
        } else {
            customer.status
        },
        ..customer
    })
}

/// The index of the first customer with the given wallet address, or -1
/// when no customer has it.
pub open spec fn spec_customer_index(customers: Seq<Customer>, wallet: AccountId) -> int
    decreases customers.len(),
{
    if customers.len() == 0 {
        -1
    } else if customers.first().wallet_address == wallet {
        0
    } else {
        let rest = spec_customer_index(customers.drop_first(), wallet);
        if rest == -1 {
            -1
        } else {
            rest + 1
        }
    }
}

/// What the first-match index means: it is -1 exactly when no customer
/// has the wallet, and otherwise points at the first customer that does.
pub proof fn lemma_customer_index(customers: Seq<Customer>, wallet: AccountId)
    ensures
        spec_customer_index(customers, wallet) == -1 <==> (forall|i: int|
            0 <= i < customers.len() ==> (#[trigger] customers[i]).wallet_address != wallet),
        spec_customer_index(customers, wallet) != -1 ==> {
            let at = spec_customer_index(customers, wallet);
            &&& 0 <= at < customers.len()
            &&& customers[at].wallet_address == wallet
            &&& (forall|j: int|
                0 <= j < at ==> (#[trigger] customers[j]).wallet_address != wallet)
        },
    decreases customers.len(),
{
    if customers.len() > 0 {
        lemma_customer_index(customers.drop_first(), wallet);
        let rest = spec_customer_index(customers.drop_first(), wallet);
        if customers.first().wallet_address == wallet {
        } else if rest == -1 {
            assert forall|i: int|
                0 <= i < customers.len() implies (#[trigger] customers[i]).wallet_address
                != wallet by {
                if i > 0 {
                    assert(customers.drop_first()[i - 1] == customers[i]);
                }
            }
        } else {
            assert(customers.drop_first()[rest] == customers[rest + 1]);
            assert forall|j: int|
                0 <= j < rest + 1 implies (#[trigger] customers[j]).wallet_address != wallet by {
                if j > 0 {
                    assert(customers.drop_first()[j - 1] == customers[j]);
                }
            }
        }
    }
}

/// Whether a customer is an active holder of the given tier.
pub open spec fn spec_active_with_tier(customer: Customer, tier: CustomerTier) -> bool {
    customer.customer_tier == tier && customer.status == CustomerStatus::Active
}

/// The active customers of the given tier, in registration order.
pub open spec fn spec_customers_by_tier(
    customers: Seq<Customer>,
    tier: CustomerTier,
) -> Seq<Customer> {
    customers.filter(|customer: Customer| spec_active_with_tier(customer, tier))
}

/// The customers with VIP status, in registration order.
pub open spec fn spec_vip_customers(customers: Seq<Customer>) -> Seq<Customer> {
    customers.filter(|customer: Customer| customer.status == CustomerStatus::VIP)
}

/// The customers holding the given tier, in registration order,
/// regardless of status.
pub open spec fn spec_customers_holding_tier(
    customers: Seq<Customer>,
    tier: CustomerTier,
) -> Seq<Customer> {
    customers.filter(|customer: Customer| customer.customer_tier == tier)
}

/// Extending the scanned prefix by one customer extends each filtered
/// view exactly when the customer passes that view's test.
pub proof fn lemma_customer_filters_step(customers: Seq<Customer>, i: int, tier: CustomerTier)
    requires
        0 <= i < customers.len(),
    ensures
        spec_customers_by_tier(customers.take(i + 1), tier) == if spec_active_with_tier(
            customers[i],
            tier,
        ) {
            spec_customers_by_tier(customers.take(i), tier).push(customers[i])
        } else {
            spec_customers_by_tier(customers.take(i), tier)
        },
        spec_vip_customers(customers.take(i + 1)) == if customers[i].status
            == CustomerStatus::VIP {
            spec_vip_customers(customers.take(i)).push(customers[i])
        } else {
            spec_vip_customers(customers.take(i))
        },
        spec_customers_holding_tier(customers.take(i + 1), tier) == if customers[i].customer_tier
            == tier {
            spec_customers_holding_tier(customers.take(i), tier).push(customers[i])
        } else {
            spec_customers_holding_tier(customers.take(i), tier)
        },
{
    reveal(Seq::filter);
    let prefix = customers.take(i + 1);
    assert(prefix.last() == customers[i]);
    assert(prefix.drop_last() =~= customers.take(i));
}

/// The customer relationship system instance.
pub struct CrmSystem {
    admin: AccountId,
    customers: Vec<Customer>,
}

impl CrmSystem {
    /// The configured administrator identity.
    pub closed spec fn spec_admin(&self) -> AccountId {
        self.admin
    }

    /// The registered customers in registration order.
    pub closed spec fn customers(&self) -> Seq<Customer> {
        self.customers@
    }

    /// Customer ids are their registration positions, wallets are unique,
    /// cumulative spends are within bounds, and every stored tier equals
    /// the classifier applied to the stored cumulative spend.
    pub closed spec fn wf(&self) -> bool {
        &&& (forall|i: int|
            0 <= i < self.customers@.len() ==> (#[trigger] self.customers@[i]).customer_id == i)
        &&& (forall|i: int, j: int|
            0 <= i < j < self.customers@.len() ==> (#[trigger] self.customers@[i]).wallet_address
                != (#[trigger] self.customers@[j]).wallet_address)
        &&& (forall|i: int|
            0 <= i < self.customers@.len() ==> 0 <= (#[trigger] self.customers@[i]).total_spent
                <= MAX_TOTAL_AMOUNT)
        &&& (forall|i: int|
            0 <= i < self.customers@.len() ==> (#[trigger] self.customers@[i]).customer_tier
                == tier_of(self.customers@[i].total_spent as int))
    }

    /// Law: in a well-formed system every stored tier equals the
    /// classifier applied to the stored cumulative spend — the tier is
    /// never stale. Together with the monotone classifier this gives the
    /// monotone-tier law for any history of recorded purchases.
    pub proof fn lemma_tiers_match_spend(&self)
        requires
            self.wf(),
        ensures
            forall|i: int|
                0 <= i < self.customers().len() ==> (#[trigger] self.customers()[i]).customer_tier
                    == tier_of(self.customers()[i].total_spent as int),
    {
    }

    /// A fresh customer system with no registered customers.
    pub fn initialize(admin: AccountId) -> (system: Self)
        ensures
            system.wf(),
            system.spec_admin() == admin,
            system.customers() == Seq::<Customer>::empty(),
    {
        CrmSystem { admin, customers: Vec::new() }
    }

    /// Registers a new customer under a wallet address. Admin-gated;
    /// rejects a wallet that is already registered. The new customer
    /// starts with zero history, one hundred loyalty points, the Bronze
    /// tier, default preferences and Active status.
    #[verifier::loop_isolation(false)]
    pub fn register_customer(
        &mut self,
        admin: AccountId,
        wallet_address: AccountId,
        name: String,
        email: String,
        phone: String,
        timestamp: u64,
    ) -> (outcome: Result<Customer, CrmError>)
        requires
            old(self).wf(),
        ensures
            final(self).wf(),
            final(self).spec_admin() == old(self).spec_admin(),
            admin != old(self).spec_admin() ==> outcome == Err::<Customer, CrmError>(
                CrmError::Unauthorized,
            ) && *final(self) == *old(self),
            admin == old(self).spec_admin() && spec_customer_index(
                old(self).customers(),
                wallet_address,
            ) != -1 ==> outcome == Err::<Customer, CrmError>(CrmError::DuplicateCustomer)
                && *final(self) == *old(self),
            admin == old(self).spec_admin() && spec_customer_index(
                old(self).customers(),
                wallet_address,
            ) == -1 ==> (outcome matches Ok(customer) && {
                &&& customer == (Customer {
                    customer_id: old(self).customers().len() as u64,
                    wallet_address,
                    name,
                    email,
                    phone,
                    join_date: timestamp,
                    total_spent: 0,
                    total_orders: 0,
                    loyalty_points: 100,
                    customer_tier: CustomerTier::Bronze,
                    preferences: (PreferenceSet {
                        email_notifications: true,
                        sms_notifications: false,
                        product_recommendations: false,
                        special_offers: true,
                        new_arrival_alerts: false,
                    }),
                    last_purchase_date: 0,
                    status: CustomerStatus::Active,
                })
                &&& final(self).customers() == old(self).customers().push(customer)
            }),
    {
        if admin != self.admin {
            return Err(CrmError::Unauthorized);
        }
        proof {
            lemma_customer_index(self.customers@, wallet_address);
        }
        let n = self.customers.len();
        let mut i: usize = 0;
        while i < n
            invariant
                i <= n,
                n == self.customers@.len(),
                forall|j: int|
                    0 <= j < i ==> (#[trigger] self.customers@[j]).wallet_address
                        != wallet_address,
                *self == *old(self),
            decreases n - i,
        {
            if self.customers[i].wallet_address == wallet_address {
                return Err(CrmError::DuplicateCustomer);
            }
            i += 1;
        }
        let customer = Customer {
            customer_id: n as u64,
            wallet_address,
            name,
            email,
            phone,
            join_date: timestamp,
            total_spent: 0,
            total_orders: 0,
            loyalty_points: 100,
            customer_tier: CustomerTier::Bronze,
            preferences: PreferenceSet::default_for_new_customer(),
            last_purchase_date: 0,
            status: CustomerStatus::Active,
        };
        let stored = customer.clone();
        proof {
            let p = self.customers@.push(stored);
            assert forall|a: int, b: int|
                0 <= a < b < p.len() implies (#[trigger] p[a]).wallet_address != (
            #[trigger] p[b]).wallet_address by {
                if b < self.customers@.len() {
                    assert(p[a] == self.customers@[a]);
                    assert(p[b] == self.customers@[b]);
                } else {
                    assert(p[a] == self.customers@[a]);
                    assert(p[b] == stored);
                }
            }
        }
        self.customers.push(stored);
        Ok(customer)
    }

    /// Applies a patch to the customer's own profile: each given field is
    /// overwritten, each absent field kept, never partially. Self-gated:
    /// the wallet address is the authenticated principal.
    #[verifier::loop_isolation(false)]
    pub fn update_customer(
        &mut self,
        customer_address: AccountId,
        updates: CustomerUpdate,
    ) -> (outcome: Result<Customer, CrmError>)
        requires
            old(self).wf(),
        ensures
            final(self).wf(),
            final(self).spec_admin() == old(self).spec_admin(),
            spec_customer_index(old(self).customers(), customer_address) == -1 ==> outcome
                == Err::<Customer, CrmError>(CrmError::CustomerNotFound) && *final(self) == *old(
                self,
            ),
            spec_customer_index(old(self).customers(), customer_address) != -1 ==> (outcome
                matches Ok(customer) && {
                let at = spec_customer_index(old(self).customers(), customer_address);
                &&& customer == spec_apply_update(old(self).customers()[at], updates)
                &&& final(self).customers() == old(self).customers().update(at, customer)
            }),
    {
        proof {
            lemma_customer_index(self.customers@, customer_address);
        }
        let n = self.customers.len();
        let mut i: usize = 0;
        while i < n
            invariant
                i <= n,
                n == self.customers@.len(),
                forall|j: int|
                    0 <= j < i ==> (#[trigger] self.customers@[j]).wallet_address
                        != customer_address,
                *self == *old(self),
            decreases n - i,
        {
            if self.customers[i].wallet_address == customer_address {
                proof {
                    lemma_customer_index_at(self.customers@, i as int, customer_address);
                }
                let found = &self.customers[i];
                let patched = Customer {
                    customer_id: found.customer_id,
                    wallet_address: found.wallet_address,
                    name: match updates.name {
                        Some(name) => name,
                        None => found.name.clone(),
                    },
                    email: match updates.email {
                        Some(email) => email,
                        None => found.email.clone(),
                    },
                    phone: match updates.phone {
                        Some(phone) => phone,
                        None => found.phone.clone(),
                    },
                    join_date: found.join_date,
                    total_spent: found.total_spent,
                    total_orders: found.total_orders,
                    loyalty_points: found.loyalty_points,
                    customer_tier: found.customer_tier,
                    preferences: match updates.preferences {
                        Some(preferences) => preferences,
                        None => found.preferences,
                    },
                    last_purchase_date: found.last_purchase_date,
                    status: match updates.status {
                        Some(status) => status,
                        None => found.status,
                    },
                };
                let stored = patched.clone();
                proof {
                    let updated = self.customers@.update(i as int, stored);
                    assert forall|a: int, b: int|
                        0 <= a < b < updated.len() implies (#[trigger] updated[a]).wallet_address
                        != (#[trigger] updated[b]).wallet_address by {
                        assert(self.customers@[a].wallet_address
                            != self.customers@[b].wallet_address);
                    }
                }
                self.customers.set(i, stored);
                return Ok(patched);
            }
            i += 1;
        }
        Err(CrmError::CustomerNotFound)
    }

    /// Records a purchase for a customer: raises the cumulative spend,
    /// the order count and the loyalty points (one point per ten thousand
    /// units), stamps the purchase time, and reclassifies the tier from
    /// the new cumulative spend. A counter that cannot take the mutation
    /// fails the whole call with `StorageFault` and commits nothing.
    #[verifier::loop_isolation(false)]
    pub fn record_purchase(
        &mut self,
        pos_system: AccountId,
        customer_address: AccountId,
        amount: i128,
        timestamp: u64,
    ) -> (outcome: Result<Customer, CrmError>)
        requires
            old(self).wf(),
        ensures
            final(self).wf(),
            final(self).spec_admin() == old(self).spec_admin(),
            spec_customer_index(old(self).customers(), customer_address) == -1 ==> outcome
                == Err::<Customer, CrmError>(CrmError::CustomerNotFound) && *final(self) == *old(
                self,
            ),
            spec_customer_index(old(self).customers(), customer_address) != -1 && amount <= 0
                ==> outcome == Err::<Customer, CrmError>(CrmError::InvalidAmount) && *final(self)
                == *old(self),
            spec_customer_index(old(self).customers(), customer_address) != -1 && amount > 0 && ({
                let found = old(self).customers()[spec_customer_index(
                    old(self).customers(),
                    customer_address,
                )];
                found.total_spent + amount > MAX_TOTAL_AMOUNT || found.loyalty_points + amount
                    / 10_000 > u64::MAX || found.total_orders + 1 > u64::MAX
            }) ==> outcome == Err::<Customer, CrmError>(CrmError::StorageFault) && *final(self)
                == *old(self),
            spec_customer_index(old(self).customers(), customer_address) != -1 && amount > 0 && ({
                let found = old(self).customers()[spec_customer_index(
                    old(self).customers(),
                    customer_address,
                )];
                found.total_spent + amount <= MAX_TOTAL_AMOUNT && found.loyalty_points + amount
                    / 10_000 <= u64::MAX && found.total_orders + 1 <= u64::MAX
            }) ==> (outcome matches Ok(customer) && {
                let at = spec_customer_index(old(self).customers(), customer_address);
                let found = old(self).customers()[at];
                &&& customer == (Customer {
                    total_spent: (found.total_spent + amount) as i128,
                    total_orders: (found.total_orders + 1) as u64,
                    loyalty_points: (found.loyalty_points + amount / 10_000) as u64,
                    customer_tier: tier_of(found.total_spent + amount),
                    last_purchase_date: timestamp,
                    ..found
                })
                &&& final(self).customers() == old(self).customers().update(at, customer)
            }),
    {
        proof {
            lemma_customer_index(self.customers@, customer_address);
        }
        let n = self.customers.len();
        let mut i: usize = 0;
        while i < n
            invariant
                i <= n,
                n == self.customers@.len(),
                forall|j: int|
                    0 <= j < i ==> (#[trigger] self.customers@[j]).wallet_address
                        != customer_address,
                *self == *old(self),
            decreases n - i,
        {
            if self.customers[i].wallet_address == customer_address {
                proof {
                    lemma_customer_index_at(self.customers@, i as int, customer_address);
                }
                if amount <= 0 {
                    return Err(CrmError::InvalidAmount);
                }
                let found = &self.customers[i];
                if amount > MAX_TOTAL_AMOUNT - found.total_spent {
                    return Err(CrmError::StorageFault);
                }
                let earned: i128 = amount / 10_000;
                proof {
                    vstd::arithmetic::div_mod::lemma_div_basics_4(amount as int, 10_000);
                    vstd::arithmetic::div_mod::lemma_div_basics_5(amount as int, 10_000);
                }
                if earned > (u64::MAX - found.loyalty_points) as i128 {
                    return Err(CrmError::StorageFault);
                }
                if found.total_orders == u64::MAX {
                    return Err(CrmError::StorageFault);
                }
                let new_spent: i128 = found.total_spent + amount;
                let updated = Customer {
                    customer_id: found.customer_id,
                    wallet_address: found.wallet_address,
                    name: found.name.clone(),
                    email: found.email.clone(),
                    phone: found.phone.clone(),
                    join_date: found.join_date,
                    total_spent: new_spent,
                    total_orders: found.total_orders + 1,
                    loyalty_points: found.loyalty_points + earned as u64,
                    customer_tier: classify_spend(new_spent),
                    preferences: found.preferences,
                    last_purchase_date: timestamp,
                    status: found.status,
                };
                let stored = updated.clone();
                proof {
                    let changed = self.customers@.update(i as int, stored);
                    assert forall|a: int, b: int|
                        0 <= a < b < changed.len() implies (#[trigger] changed[a]).wallet_address
                        != (#[trigger] changed[b]).wallet_address by {
                        assert(self.customers@[a].wallet_address
                            != self.customers@[b].wallet_address);
                    }
                }
                self.customers.set(i, stored);
                return Ok(updated);
            }
            i += 1;
        }
        Err(CrmError::CustomerNotFound)
    }

    /// Reads a customer profile by wallet address.
    #[verifier::loop_isolation(false)]
    pub fn get_customer(&self, wallet_address: AccountId) -> (outcome: Result<Customer, CrmError>)
        ensures
            spec_customer_index(self.customers(), wallet_address) == -1 ==> outcome == Err::<
                Customer,
                CrmError,
            >(CrmError::CustomerNotFound),
            spec_customer_index(self.customers(), wallet_address) != -1 ==> outcome == Ok::<
                Customer,
                CrmError,
            >(self.customers()[spec_customer_index(self.customers(), wallet_address)]),
    {
        proof {
            lemma_customer_index(self.customers@, wallet_address);
        }
        let n = self.customers.len();
        let mut i: usize = 0;
        while i < n
            invariant
                i <= n,
                n == self.customers@.len(),
                forall|j: int|
                    0 <= j < i ==> (#[trigger] self.customers@[j]).wallet_address
                        != wallet_address,
            decreases n - i,
        {
            if self.customers[i].wallet_address == wallet_address {
                proof {
                    lemma_customer_index_at(self.customers@, i as int, wallet_address);
                }
                return Ok(self.customers[i].clone());
            }
            i += 1;
        }
        Err(CrmError::CustomerNotFound)
    }

    /// Returns the active customers of the given tier, in registration
    /// order.
    #[verifier::loop_isolation(false)]
    pub fn get_customers_by_tier(&self, tier: CustomerTier) -> (selected: Vec<Customer>)
        ensures
            selected@ == spec_customers_by_tier(self.customers(), tier),
    {
        let ghost all = self.customers@;
        let mut selected: Vec<Customer> = Vec::new();
        let n = self.customers.len();
        let mut i: usize = 0;
        proof {
            assert(all.take(0) =~= Seq::<Customer>::empty());
            reveal(Seq::filter);
        }
        while i < n
            invariant
                i <= n,
                n == all.len(),
                selected@ == spec_customers_by_tier(all.take(i as int), tier),
            decreases n - i,
        {
            proof {
                lemma_customer_filters_step(all, i as int, tier);
            }
            let customer = &self.customers[i];
            let tier_matches = customer.tier_is(tier);
            let active = match customer.status {
                CustomerStatus::Active => true,
                _ => false,
            };
            if tier_matches && active {
                selected.push(customer.clone());
            }
            i += 1;
        }
        proof {
            assert(all.take(n as int) =~= all);
        }
        selected
    }

    /// Returns the customers with VIP status, in registration order.
    #[verifier::loop_isolation(false)]
    pub fn get_vip_customers(&self) -> (selected: Vec<Customer>)
        ensures
            selected@ == spec_vip_customers(self.customers()),
    {
        let ghost all = self.customers@;
        let mut selected: Vec<Customer> = Vec::new();
        let n = self.customers.len();
        let mut i: usize = 0;
        proof {
            assert(all.take(0) =~= Seq::<Customer>::empty());
            reveal(Seq::filter);
        }
        while i < n
            invariant
                i <= n,
                n == all.len(),
                selected@ == spec_vip_customers(all.take(i as int)),
            decreases n - i,
        {
            proof {
                lemma_customer_filters_step(all, i as int, CustomerTier::Bronze);
            }
            let customer = &self.customers[i];
            let vip = match customer.status {
                CustomerStatus::VIP => true,
                _ => false,
            };
            if vip {
                selected.push(customer.clone());
            }
            i += 1;
        }
        proof {
            assert(all.take(n as int) =~= all);
        }
        selected
    }

    /// Returns every customer, in registration order.
    pub fn get_customer_ranking(&self) -> (listed: Vec<Customer>)
        ensures
            listed@ == self.customers(),
    {
        let listed = self.customers.clone();
        proof {
            assert(listed@ =~= self.customers@);
        }
        listed
    }

    /// Grants loyalty points directly. Admin-gated; a point balance that
    /// cannot take the grant fails with `StorageFault` and commits
    /// nothing.
    #[verifier::loop_isolation(false)]
    pub fn add_loyalty_points(
        &mut self,
        admin: AccountId,
        customer_address: AccountId,
        points: u32,
    ) -> (outcome: Result<Customer, CrmError>)
        requires
            old(self).wf(),
        ensures
            final(self).wf(),
            final(self).spec_admin() == old(self).spec_admin(),
            admin != old(self).spec_admin() ==> outcome == Err::<Customer, CrmError>(
                CrmError::Unauthorized,
            ) && *final(self) == *old(self),
            admin == old(self).spec_admin() && spec_customer_index(
                old(self).customers(),
                customer_address,
            ) == -1 ==> outcome == Err::<Customer, CrmError>(CrmError::CustomerNotFound)
                && *final(self) == *old(self),
            admin == old(self).spec_admin() && spec_customer_index(
                old(self).customers(),
                customer_address,
            ) != -1 && old(self).customers()[spec_customer_index(
                old(self).customers(),
                customer_address,
            )].loyalty_points + points > u64::MAX ==> outcome == Err::<Customer, CrmError>(
                CrmError::StorageFault,
            ) && *final(self) == *old(self),
            admin == old(self).spec_admin() && spec_customer_index(
                old(self).customers(),
                customer_address,
            ) != -1 && old(self).customers()[spec_customer_index(
                old(self).customers(),
                customer_address,
            )].loyalty_points + points <= u64::MAX ==> (outcome matches Ok(customer) && {
                let at = spec_customer_index(old(self).customers(), customer_address);
                let found = old(self).customers()[at];
                &&& customer == (Customer {
                    loyalty_points: (found.loyalty_points + points) as u64,
                    ..found
                })
                &&& final(self).customers() == old(self).customers().update(at, customer)
            }),
    {
        if admin != self.admin {
            return Err(CrmError::Unauthorized);
        }
        proof {
            lemma_customer_index(self.customers@, customer_address);
        }
        let n = self.customers.len();
        let mut i: usize = 0;
        while i < n
            invariant
                i <= n,
                n == self.customers@.len(),
                forall|j: int|
                    0 <= j < i ==> (#[trigger] self.customers@[j]).wallet_address
                        != customer_address,
                *self == *old(self),
            decreases n - i,
        {
            if self.customers[i].wallet_address == customer_address {
                proof {
                    lemma_customer_index_at(self.customers@, i as int, customer_address);
                }
                let found = &self.customers[i];
                if points as u64 > u64::MAX - found.loyalty_points {
                    return Err(CrmError::StorageFault);
                }
                let updated = Customer {
                    customer_id: found.customer_id,
                    wallet_address: found.wallet_address,
                    name: found.name.clone(),
                    email: found.email.clone(),
                    phone: found.phone.clone(),
                    join_date: found.join_date,
                    total_spent: found.total_spent,
                    total_orders: found.total_orders,
                    loyalty_points: found.loyalty_points + points as u64,
                    customer_tier: found.customer_tier,
                    preferences: found.preferences,
                    last_purchase_date: found.last_purchase_date,
                    status: found.status,
                };
                let stored = updated.clone();
                proof {
                    let changed = self.customers@.update(i as int, stored);
                    assert forall|a: int, b: int|
                        0 <= a < b < changed.len() implies (#[trigger] changed[a]).wallet_address
                        != (#[trigger] changed[b]).wallet_address by {
                        assert(self.customers@[a].wallet_address
                            != self.customers@[b].wallet_address);
                    }
                }
                self.customers.set(i, stored);
                return Ok(updated);
            }
            i += 1;
        }
        Err(CrmError::CustomerNotFound)
    }

    /// How many customers are registered.
    pub fn get_total_customers(&self) -> (count: usize)
        ensures
            count == self.customers().len(),
    {
        self.customers.len()
    }

    /// How many customers hold each tier, regardless of status, in tier
    /// order.
    #[verifier::loop_isolation(false)]
    pub fn get_customers_count_by_tier(&self) -> (counts: Vec<(CustomerTier, usize)>)
        ensures
            counts@.len() == 4,
            counts@[0].0 == CustomerTier::Bronze && counts@[0].1 == spec_customers_holding_tier(
                self.customers(),
                CustomerTier::Bronze,
            ).len(),
            counts@[1].0 == CustomerTier::Silver && counts@[1].1 == spec_customers_holding_tier(
                self.customers(),
                CustomerTier::Silver,
            ).len(),
            counts@[2].0 == CustomerTier::Gold && counts@[2].1 == spec_customers_holding_tier(
                self.customers(),
                CustomerTier::Gold,
            ).len(),
            counts@[3].0 == CustomerTier::Platinum && counts@[3].1 == spec_customers_holding_tier(
                self.customers(),
                CustomerTier::Platinum,
            ).len(),
    {
        let ghost all = self.customers@;
        let n = self.customers.len();
        let mut bronze: usize = 0;
        let mut silver: usize = 0;
        let mut gold: usize = 0;
        let mut platinum: usize = 0;
        let mut i: usize = 0;
        proof {
            assert(all.take(0) =~= Seq::<Customer>::empty());
            reveal(Seq::filter);
        }
        while i < n
            invariant
                i <= n,
                n == all.len(),
                bronze == spec_customers_holding_tier(all.take(i as int), CustomerTier::Bronze)
                    .len(),
                silver == spec_customers_holding_tier(all.take(i as int), CustomerTier::Silver)
                    .len(),
                gold == spec_customers_holding_tier(all.take(i as int), CustomerTier::Gold).len(),
                platinum == spec_customers_holding_tier(
                    all.take(i as int),
                    CustomerTier::Platinum,
                ).len(),
                bronze <= i && silver <= i && gold <= i && platinum <= i,
            decreases n - i,
        {
            proof {
                lemma_customer_filters_step(all, i as int, CustomerTier::Bronze);
                lemma_customer_filters_step(all, i as int, CustomerTier::Silver);
                lemma_customer_filters_step(all, i as int, CustomerTier::Gold);
                lemma_customer_filters_step(all, i as int, CustomerTier::Platinum);
            }
            match self.customers[i].customer_tier {
                CustomerTier::Bronze => {
                    bronze += 1;
                },
                CustomerTier::Silver => {
                    silver += 1;
                },
                CustomerTier::Gold => {
                    gold += 1;
                },
                CustomerTier::Platinum => {
                    platinum += 1;
                },
            }
            i += 1;
        }
        proof {
            assert(all.take(n as int) =~= all);
        }
        let mut counts: Vec<(CustomerTier, usize)> = Vec::new();
        counts.push((CustomerTier::Bronze, bronze));
        counts.push((CustomerTier::Silver, silver));
        counts.push((CustomerTier::Gold, gold));
        counts.push((CustomerTier::Platinum, platinum));
        counts
    }

    /// The greeting of this system.
    pub fn hello(&self) -> (greeting: String)
        ensures
            greeting@ == "Hello from CRM System!"@,
    {
        String::from_str("Hello from CRM System!")
    }
}

impl Customer {
    /// Checks whether this customer holds the given tier.
    pub fn tier_is(&self, tier: CustomerTier) -> (held: bool)
        ensures
            held == (self.customer_tier == tier),
    {
        self.customer_tier == tier
    }
}

/// Law: a recorded purchase never lowers a customer's tier. The stored
/// tier always equals the classifier applied to the stored cumulative
/// spend, a purchase only raises that spend, and the classifier is
/// monotone in it.
pub proof fn lemma_purchase_never_lowers_tier(customer: Customer, amount: i128)
    requires
        customer.customer_tier == tier_of(customer.total_spent as int),
        amount > 0,
    ensures
        crate::tier::tier_rank(tier_of(customer.total_spent + amount)) >= crate::tier::tier_rank(
            customer.customer_tier,
        ),
{
    crate::tier::lemma_tier_monotonic(
        customer.total_spent as int,
        customer.total_spent + amount,
    );
}

/// The first-match index is `i` when the prefix before `i` is free of the
/// wallet and the customer at `i` has it.
pub proof fn lemma_customer_index_at(customers: Seq<Customer>, i: int, wallet: AccountId)
    requires
        0 <= i < customers.len(),
        customers[i].wallet_address == wallet,
        forall|j: int| 0 <= j < i ==> (#[trigger] customers[j]).wallet_address != wallet,
    ensures
        spec_customer_index(customers, wallet) == i,
    decreases i,
{
    if i > 0 {
        assert(customers.first().wallet_address != wallet);
        assert(customers.drop_first()[i - 1] == customers[i]);
        assert forall|j: int|
            0 <= j < i - 1 implies (#[trigger] customers.drop_first()[j]).wallet_address
            != wallet by {
            assert(customers.drop_first()[j] == customers[j + 1]);
        }
        lemma_customer_index_at(customers.drop_first(), i - 1, wallet);
    }
}

} // verus!
