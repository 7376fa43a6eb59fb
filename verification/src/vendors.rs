//! The vendor manager: the supplier register with admin-gated mutations
//! and a bounded rating.

use vstd::prelude::*;
use crate::AccountId;

verus! {

/// Why a vendor operation was refused.
#[derive(Clone, Copy, Debug, PartialEq, Eq, Structural)]
pub enum VendorError {
    /// The principal is not the configured administrator.
    Unauthorized,
    /// No vendor is registered under the identifier.
    VendorNotFound,
    /// A vendor is already registered under the identifier.
    DuplicateVendor,
    /// A rating outside the one-to-five band.
    InvalidRating,
    /// The vendor is inactive and cannot take the operation.
    VendorInactive,
}

/// One registered vendor.
#[derive(Debug)]
pub struct Vendor {
    /// Caller-supplied identifier; unique in the register.
    pub vendor_id: String,
    pub name: String,
    /// The vendor's contact identity.
    pub contact_address: AccountId,
    pub phone: String,
    pub email: String,
    pub category: String,
    /// The running rating, between zero (unrated) and five.
    pub rating: u32,
    pub active: bool,
    /// The stock-keeping units this vendor supplies.
    pub products_supplied: Vec<String>,
}

/// Whether two vendors agree on every field (supplied products compared
/// as sequences).
pub open spec fn spec_vendor_eq(a: Vendor, b: Vendor) -> bool {
    &&& a.vendor_id == b.vendor_id
    &&& a.name == b.name
    &&& a.contact_address == b.contact_address
    &&& a.phone == b.phone
    &&& a.email == b.email
    &&& a.category == b.category
    &&& a.rating == b.rating
    &&& a.active == b.active
    &&& a.products_supplied@ == b.products_supplied@
}

/// Whether two vendor sequences agree element by element.
pub open spec fn spec_vendors_eq(a: Seq<Vendor>, b: Seq<Vendor>) -> bool {
    a.len() == b.len() && (forall|i: int|
        0 <= i < a.len() ==> spec_vendor_eq(#[trigger] a[i], b[i]))
}

impl Clone for Vendor {
    fn clone(&self) -> (other: Self)
        ensures
            spec_vendor_eq(other, *self),
    {
        let products_supplied = self.products_supplied.clone();
        proof {
            assert(products_supplied@ =~= self.products_supplied@);
        }
        Vendor {
            vendor_id: self.vendor_id.clone(),
            name: self.name.clone(),
            contact_address: self.contact_address,
            phone: self.phone.clone(),
            email: self.email.clone(),
            category: self.category.clone(),
            rating: self.rating,
            active: self.active,
            products_supplied,
        }
    }
}

/// Pushing element-wise equal vendors onto element-wise equal sequences
/// keeps them element-wise equal.
pub proof fn lemma_vendors_eq_push(a: Seq<Vendor>, b: Seq<Vendor>, x: Vendor, y: Vendor)
    requires
        spec_vendors_eq(a, b),
        spec_vendor_eq(x, y),
    ensures
        spec_vendors_eq(a.push(x), b.push(y)),
{
    assert forall|i: int|
        0 <= i < a.push(x).len() implies spec_vendor_eq(#[trigger] a.push(x)[i], b.push(y)[i]) by {
        if i < a.len() {
            assert(a.push(x)[i] == a[i]);
            assert(b.push(y)[i] == b[i]);
        } else {
            assert(a.push(x)[i] == x);
            assert(b.push(y)[i] == y);
        }
    }
}

/// The new running rating after one more rating comes in: the rating
/// itself for a previously unrated vendor, otherwise the truncated mean
/// of the current and the new rating.
pub open spec fn spec_next_rating(current: u32, rating: u32) -> int {
    if current == 0 {
        rating as int
    } else {
        (current + rating) / 2
    }
}

/// The index of the first vendor with the given identifier, or -1 when no
/// vendor has it.
pub open spec fn spec_vendor_index(vendors: Seq<Vendor>, id: Seq<char>) -> int
    decreases vendors.len(),
{
    if vendors.len() == 0 {
        -1
    } else if vendors.first().vendor_id@ == id {
        0
    } else {
        let rest = spec_vendor_index(vendors.drop_first(), id);
        if rest == -1 {
            -1
        } else {
            rest + 1
        }
    }
}

/// What the first-match index means.
pub proof fn lemma_vendor_index(vendors: Seq<Vendor>, id: Seq<char>)
    ensures
        spec_vendor_index(vendors, id) == -1 <==> (forall|i: int|
            0 <= i < vendors.len() ==> (#[trigger] vendors[i]).vendor_id@ != id),
        spec_vendor_index(vendors, id) != -1 ==> {
            let at = spec_vendor_index(vendors, id);
            &&& 0 <= at < vendors.len()
            &&& vendors[at].vendor_id@ == id
            &&& (forall|j: int| 0 <= j < at ==> (#[trigger] vendors[j]).vendor_id@ != id)
        },
    decreases vendors.len(),
{
    if vendors.len() > 0 {
        lemma_vendor_index(vendors.drop_first(), id);
        let rest = spec_vendor_index(vendors.drop_first(), id);
        if vendors.first().vendor_id@ == id {
        } else if rest == -1 {
            assert forall|i: int|
                0 <= i < vendors.len() implies (#[trigger] vendors[i]).vendor_id@ != id by {
                if i > 0 {
                    assert(vendors.drop_first()[i - 1] == vendors[i]);
                }
            }
        } else {
            assert(vendors.drop_first()[rest] == vendors[rest + 1]);
            assert forall|j: int|
                0 <= j < rest + 1 implies (#[trigger] vendors[j]).vendor_id@ != id by {
                if j > 0 {
                    assert(vendors.drop_first()[j - 1] == vendors[j]);
                }
            }
        }
    }
}

/// The first-match index is `i` when the prefix before `i` is free of the
/// identifier and the vendor at `i` has it.
pub proof fn lemma_vendor_index_at(vendors: Seq<Vendor>, i: int, id: Seq<char>)
    requires
        0 <= i < vendors.len(),
        vendors[i].vendor_id@ == id,
        forall|j: int| 0 <= j < i ==> (#[trigger] vendors[j]).vendor_id@ != id,
    ensures
        spec_vendor_index(vendors, id) == i,
    decreases i,
{
    if i > 0 {
        assert(vendors.first().vendor_id@ != id);
        assert(vendors.drop_first()[i - 1] == vendors[i]);
        assert forall|j: int|
            0 <= j < i - 1 implies (#[trigger] vendors.drop_first()[j]).vendor_id@ != id by {
            assert(vendors.drop_first()[j] == vendors[j + 1]);
        }
        lemma_vendor_index_at(vendors.drop_first(), i - 1, id);
    }
}

/// Whether a vendor is an active member of the given category.
pub open spec fn spec_active_in_category(vendor: Vendor, category: Seq<char>) -> bool {
    vendor.category@ == category && vendor.active
}

/// Whether a vendor is active and has exactly the given name.
pub open spec fn spec_active_named(vendor: Vendor, name: Seq<char>) -> bool {
    vendor.name@ == name && vendor.active
}

/// The active vendors of the given category, in registration order.
pub open spec fn spec_vendors_by_category(vendors: Seq<Vendor>, category: Seq<char>) -> Seq<
    Vendor,
> {
    vendors.filter(|vendor: Vendor| spec_active_in_category(vendor, category))
}

/// The active vendors with exactly the given name, in registration order.
pub open spec fn spec_vendors_named(vendors: Seq<Vendor>, name: Seq<char>) -> Seq<Vendor> {
    vendors.filter(|vendor: Vendor| spec_active_named(vendor, name))
}

/// Extending the scanned prefix by one vendor extends each filtered view
/// exactly when the vendor passes that view's test.
pub proof fn lemma_vendor_filters_step(vendors: Seq<Vendor>, i: int, text: Seq<char>)
    requires
        0 <= i < vendors.len(),
    ensures
        spec_vendors_by_category(vendors.take(i + 1), text) == if spec_active_in_category(
            vendors[i],
            text,
        ) {
            spec_vendors_by_category(vendors.take(i), text).push(vendors[i])
        } else {
            spec_vendors_by_category(vendors.take(i), text)
        },
        spec_vendors_named(vendors.take(i + 1), text) == if spec_active_named(vendors[i], text) {
            spec_vendors_named(vendors.take(i), text).push(vendors[i])
        } else {
            spec_vendors_named(vendors.take(i), text)
        },
{
    reveal(Seq::filter);
    let prefix = vendors.take(i + 1);
    assert(prefix.last() == vendors[i]);
    assert(prefix.drop_last() =~= vendors.take(i));
}

/// A performance snapshot for one vendor. Order history is tracked by a
/// collaborator, so the order and revenue figures read as zero here; the
/// rating is the vendor's running rating.
#[derive(Debug)]
pub struct VendorPerformance {
    pub vendor_id: String,
    pub total_orders: u32,
    pub completed_orders: u32,
    pub total_revenue: i128,
    pub average_rating: u32,
}

/// The vendor manager instance.
pub struct VendorManager {
    admin: AccountId,
    vendors: Vec<Vendor>,
}

impl VendorManager {
    /// The configured administrator identity.
    pub closed spec fn spec_admin(&self) -> AccountId {
        self.admin
    }

    /// The register in registration order.
    pub closed spec fn vendors(&self) -> Seq<Vendor> {
        self.vendors@
    }

    /// Identifiers are unique and every rating is at most five.
    pub closed spec fn wf(&self) -> bool {
        &&& (forall|i: int, j: int|
            0 <= i < j < self.vendors@.len() ==> (#[trigger] self.vendors@[i]).vendor_id@ != (
            #[trigger] self.vendors@[j]).vendor_id@)
        &&& (forall|i: int|
            0 <= i < self.vendors@.len() ==> (#[trigger] self.vendors@[i]).rating <= 5)
    }

    /// A fresh vendor manager with an empty register.
    pub fn initialize(admin: AccountId) -> (manager: Self)
        ensures
            manager.wf(),
            manager.spec_admin() == admin,
            manager.vendors() == Seq::<Vendor>::empty(),
    {
        VendorManager { admin, vendors: Vec::new() }
    }

    /// Registers a vendor. Admin-gated; rejects a duplicate identifier.
    /// The new vendor starts active, unrated, and supplying nothing.
    #[verifier::loop_isolation(false)]
    pub fn add_vendor(
        &mut self,
        admin: AccountId,
        vendor_id: String,
        name: String,
        contact_address: AccountId,
        phone: String,
        email: String,
        category: String,
    ) -> (outcome: Result<Vendor, VendorError>)
        requires
            old(self).wf(),
        ensures
            final(self).wf(),
            final(self).spec_admin() == old(self).spec_admin(),
            admin != old(self).spec_admin() ==> outcome == Err::<Vendor, VendorError>(
                VendorError::Unauthorized,
            ) && *final(self) == *old(self),
            admin == old(self).spec_admin() && spec_vendor_index(old(self).vendors(), vendor_id@)
                != -1 ==> outcome == Err::<Vendor, VendorError>(VendorError::DuplicateVendor)
                && *final(self) == *old(self),
            admin == old(self).spec_admin() && spec_vendor_index(old(self).vendors(), vendor_id@)
                == -1 ==> (outcome matches Ok(vendor) && {
                &&& vendor.vendor_id == vendor_id
                &&& vendor.name == name
                &&& vendor.contact_address == contact_address
                &&& vendor.phone == phone
                &&& vendor.email == email
                &&& vendor.category == category
                &&& vendor.rating == 0
                &&& vendor.active
                &&& vendor.products_supplied@ == Seq::<String>::empty()
                &&& final(self).vendors().len() == old(self).vendors().len() + 1
                &&& final(self).vendors().take(old(self).vendors().len() as int) == old(
                    self,
                ).vendors()
                &&& spec_vendor_eq(final(self).vendors().last(), vendor)
            }),
    {
        if admin != self.admin {
            return Err(VendorError::Unauthorized);
        }
        proof {
            lemma_vendor_index(self.vendors@, vendor_id@);
        }
        let n = self.vendors.len();
        let mut i: usize = 0;
        while i < n
            invariant
                i <= n,
                n == self.vendors@.len(),
                forall|j: int| 0 <= j < i ==> (#[trigger] self.vendors@[j]).vendor_id@ != vendor_id@,
                *self == *old(self),
            decreases n - i,
        {
            if self.vendors[i].vendor_id.eq(&vendor_id) {
                return Err(VendorError::DuplicateVendor);
            }
            i += 1;
        }
        let vendor = Vendor {
            vendor_id,
            name,
            contact_address,
            phone,
            email,
            category,
            rating: 0,
            active: true,
            products_supplied: Vec::new(),
        };
        let stored = vendor.clone();
        proof {
            let p = self.vendors@.push(stored);
            assert forall|a: int, b: int|
                0 <= a < b < p.len() implies (#[trigger] p[a]).vendor_id@ != (
            #[trigger] p[b]).vendor_id@ by {
                if b < self.vendors@.len() {
                    assert(p[a] == self.vendors@[a]);
                    assert(p[b] == self.vendors@[b]);
                } else {
                    assert(p[a] == self.vendors@[a]);
                    assert(p[b] == stored);
                }
            }
            assert forall|j: int| 0 <= j < p.len() implies (#[trigger] p[j]).rating <= 5 by {
                if j < self.vendors@.len() {
                    assert(p[j] == self.vendors@[j]);
                }
            }
            assert(p.take(self.vendors@.len() as int) =~= self.vendors@);
        }
        self.vendors.push(stored);
        Ok(vendor)
    }

    /// Applies a patch to a vendor's contact fields: each given field is
    /// overwritten, each absent field kept. Admin-gated.
    #[verifier::loop_isolation(false)]
    pub fn update_vendor(
        &mut self,
        admin: AccountId,
        vendor_id: &String,
        name: Option<String>,
        phone: Option<String>,
        email: Option<String>,
        category: Option<String>,
    ) -> (outcome: Result<Vendor, VendorError>)
        requires
            old(self).wf(),
        ensures
            final(self).wf(),
            final(self).spec_admin() == old(self).spec_admin(),
            admin != old(self).spec_admin() ==> outcome == Err::<Vendor, VendorError>(
                VendorError::Unauthorized,
            ) && *final(self) == *old(self),
            admin == old(self).spec_admin() && spec_vendor_index(old(self).vendors(), vendor_id@)
                == -1 ==> outcome == Err::<Vendor, VendorError>(VendorError::VendorNotFound)
                && *final(self) == *old(self),
            admin == old(self).spec_admin() && spec_vendor_index(old(self).vendors(), vendor_id@)
                != -1 ==> (outcome matches Ok(vendor) && {
                let at = spec_vendor_index(old(self).vendors(), vendor_id@);
                let before = old(self).vendors()[at];
                &&& vendor.vendor_id == before.vendor_id
                &&& vendor.name == (if name is Some {
                    name->Some_0
                } else {
                    before.name
                })
                &&& vendor.phone == (if phone is Some {
                    phone->Some_0
                } else {
                    before.phone
                })
                &&& vendor.email == (if email is Some {
                    email->Some_0
                } else {
                    before.email
                })
                &&& vendor.category == (if category is Some {
                    category->Some_0
                } else {
                    before.category
                })
                &&& vendor.contact_address == before.contact_address
                &&& vendor.rating == before.rating
                &&& vendor.active == before.active
                &&& vendor.products_supplied@ == before.products_supplied@
                &&& final(self).vendors().len() == old(self).vendors().len()
                &&& (forall|j: int|
                    0 <= j < old(self).vendors().len() && j != at ==> #[trigger] final(self).vendors()[j] == old(self).vendors()[j])
                &&& spec_vendor_eq(final(self).vendors()[at], vendor)
            }),
    {
        if admin != self.admin {
            return Err(VendorError::Unauthorized);
        }
        proof {
            lemma_vendor_index(self.vendors@, vendor_id@);
        }
        let n = self.vendors.len();
        let mut i: usize = 0;
        while i < n
            invariant
                i <= n,
                n == self.vendors@.len(),
                forall|j: int|
                    0 <= j < i ==> (#[trigger] self.vendors@[j]).vendor_id@ != vendor_id@,
                *self == *old(self),
            decreases n - i,
        {
            if self.vendors[i].vendor_id.eq(vendor_id) {
                proof {
                    lemma_vendor_index_at(self.vendors@, i as int, vendor_id@);
                }
                let found = &self.vendors[i];
                let products_supplied = found.products_supplied.clone();
                proof {
                    assert(products_supplied@ =~= self.vendors@[i as int].products_supplied@);
                }
                let patched = Vendor {
                    vendor_id: found.vendor_id.clone(),
                    name: match name {
                        Some(name) => name,
                        None => found.name.clone(),
                    },
                    contact_address: found.contact_address,
                    phone: match phone {
                        Some(phone) => phone,
                        None => found.phone.clone(),
                    },
                    email: match email {
                        Some(email) => email,
                        None => found.email.clone(),
                    },
                    category: match category {
                        Some(category) => category,
                        None => found.category.clone(),
                    },
                    rating: found.rating,
                    active: found.active,
                    products_supplied,
                };
                let stored = patched.clone();
                proof {
                    let changed = self.vendors@.update(i as int, stored);
                    assert forall|a: int, b: int|
                        0 <= a < b < changed.len() implies (#[trigger] changed[a]).vendor_id@ != (
                    #[trigger] changed[b]).vendor_id@ by {
                        assert(self.vendors@[a].vendor_id@ != self.vendors@[b].vendor_id@);
                    }
                    assert forall|j: int|
                        0 <= j < changed.len() implies (#[trigger] changed[j]).rating <= 5 by {
                        if j != i {
                            assert(changed[j] == self.vendors@[j]);
                        }
                    }
                }
                self.vendors.set(i, stored);
                return Ok(patched);
            }
            i += 1;
        }
        Err(VendorError::VendorNotFound)
    }

    /// Records a rating between one and five from any authenticated
    /// rater. A previously unrated vendor takes the rating as is; later
    /// ratings blend in as the truncated mean with the running rating.
    /// Rejects an out-of-band rating and an inactive vendor.
    #[verifier::loop_isolation(false)]
    pub fn rate_vendor(
        &mut self,
        rater: AccountId,
        vendor_id: &String,
        rating: u32,
    ) -> (outcome: Result<Vendor, VendorError>)
        requires
            old(self).wf(),
        ensures
            final(self).wf(),
            final(self).spec_admin() == old(self).spec_admin(),
            rating < 1 || rating > 5 ==> outcome == Err::<Vendor, VendorError>(
                VendorError::InvalidRating,
            ) && *final(self) == *old(self),
            1 <= rating <= 5 && spec_vendor_index(old(self).vendors(), vendor_id@) == -1
                ==> outcome == Err::<Vendor, VendorError>(VendorError::VendorNotFound)
                && *final(self) == *old(self),
            1 <= rating <= 5 && spec_vendor_index(old(self).vendors(), vendor_id@) != -1 && !old(
                self,
            ).vendors()[spec_vendor_index(old(self).vendors(), vendor_id@)].active ==> outcome
                == Err::<Vendor, VendorError>(VendorError::VendorInactive) && *final(self) == *old(
                self,
            ),
            1 <= rating <= 5 && spec_vendor_index(old(self).vendors(), vendor_id@) != -1 && old(
                self,
            ).vendors()[spec_vendor_index(old(self).vendors(), vendor_id@)].active ==> (outcome
                matches Ok(vendor) && {
                let at = spec_vendor_index(old(self).vendors(), vendor_id@);
                let before = old(self).vendors()[at];
                &&& vendor.rating == spec_next_rating(before.rating, rating)
                &&& vendor.vendor_id == before.vendor_id
                &&& vendor.active == before.active
                &&& final(self).vendors().len() == old(self).vendors().len()
                &&& (forall|j: int|
                    0 <= j < old(self).vendors().len() && j != at ==> #[trigger] final(self).vendors()[j] == old(self).vendors()[j])
                &&& spec_vendor_eq(final(self).vendors()[at], vendor)
            }),
    {
        if rating < 1 || rating > 5 {
            return Err(VendorError::InvalidRating);
        }
        proof {
            lemma_vendor_index(self.vendors@, vendor_id@);
        }
        let n = self.vendors.len();
        let mut i: usize = 0;
        while i < n
            invariant
                i <= n,
                n == self.vendors@.len(),
                forall|j: int|
                    0 <= j < i ==> (#[trigger] self.vendors@[j]).vendor_id@ != vendor_id@,
                *self == *old(self),
            decreases n - i,
        {
            if self.vendors[i].vendor_id.eq(vendor_id) {
                proof {
                    lemma_vendor_index_at(self.vendors@, i as int, vendor_id@);
                }
                let found = &self.vendors[i];
                if !found.active {
                    return Err(VendorError::VendorInactive);
                }
                proof {
                    assert(self.vendors@[i as int].rating <= 5);
                }
                let new_rating: u32 = if found.rating == 0 {
                    rating
                } else {
                    (found.rating + rating) / 2
                };
                let products_supplied = found.products_supplied.clone();
                proof {
                    assert(products_supplied@ =~= self.vendors@[i as int].products_supplied@);
                }
                let patched = Vendor {
                    vendor_id: found.vendor_id.clone(),
                    name: found.name.clone(),
                    contact_address: found.contact_address,
                    phone: found.phone.clone(),
                    email: found.email.clone(),
                    category: found.category.clone(),
                    rating: new_rating,
                    active: found.active,
                    products_supplied,
                };
                let stored = patched.clone();
                proof {
                    let changed = self.vendors@.update(i as int, stored);
                    assert forall|a: int, b: int|
                        0 <= a < b < changed.len() implies (#[trigger] changed[a]).vendor_id@ != (
                    #[trigger] changed[b]).vendor_id@ by {
                        assert(self.vendors@[a].vendor_id@ != self.vendors@[b].vendor_id@);
                    }
                    assert forall|j: int|
                        0 <= j < changed.len() implies (#[trigger] changed[j]).rating <= 5 by {
                        if j != i {
                            assert(changed[j] == self.vendors@[j]);
                        }
                    }
                }
                self.vendors.set(i, stored);
                return Ok(patched);
            }
            i += 1;
        }
        Err(VendorError::VendorNotFound)
    }

    /// Adds a stock-keeping unit to the vendor's supplied products.
    /// Admin-gated; rejects an inactive vendor.
    #[verifier::loop_isolation(false)]
    pub fn add_vendor_product(
        &mut self,
        admin: AccountId,
        vendor_id: &String,
        product_sku: String,
    ) -> (outcome: Result<Vendor, VendorError>)
        requires
            old(self).wf(),
        ensures
            final(self).wf(),
            final(self).spec_admin() == old(self).spec_admin(),
            admin != old(self).spec_admin() ==> outcome == Err::<Vendor, VendorError>(
                VendorError::Unauthorized,
            ) && *final(self) == *old(self),
            admin == old(self).spec_admin() && spec_vendor_index(old(self).vendors(), vendor_id@)
                == -1 ==> outcome == Err::<Vendor, VendorError>(VendorError::VendorNotFound)
                && *final(self) == *old(self),
            admin == old(self).spec_admin() && spec_vendor_index(old(self).vendors(), vendor_id@)
                != -1 && !old(self).vendors()[spec_vendor_index(
                old(self).vendors(),
                vendor_id@,
            )].active ==> outcome == Err::<Vendor, VendorError>(VendorError::VendorInactive)
                && *final(self) == *old(self),
            admin == old(self).spec_admin() && spec_vendor_index(old(self).vendors(), vendor_id@)
                != -1 && old(self).vendors()[spec_vendor_index(
                old(self).vendors(),
                vendor_id@,
            )].active ==> (outcome matches Ok(vendor) && {
                let at = spec_vendor_index(old(self).vendors(), vendor_id@);
                let before = old(self).vendors()[at];
                &&& vendor.vendor_id == before.vendor_id
                &&& vendor.products_supplied@ == before.products_supplied@.push(product_sku)
                &&& final(self).vendors().len() == old(self).vendors().len()
                &&& (forall|j: int|
                    0 <= j < old(self).vendors().len() && j != at ==> #[trigger] final(self).vendors()[j] == old(self).vendors()[j])
                &&& spec_vendor_eq(final(self).vendors()[at], vendor)
            }),
    {
        if admin != self.admin {
            return Err(VendorError::Unauthorized);
        }
        proof {
            lemma_vendor_index(self.vendors@, vendor_id@);
        }
        let n = self.vendors.len();
        let mut i: usize = 0;
        while i < n
            invariant
                i <= n,
                n == self.vendors@.len(),
                forall|j: int|
                    0 <= j < i ==> (#[trigger] self.vendors@[j]).vendor_id@ != vendor_id@,
                *self == *old(self),
            decreases n - i,
        {
            if self.vendors[i].vendor_id.eq(vendor_id) {
                proof {
                    lemma_vendor_index_at(self.vendors@, i as int, vendor_id@);
                }
                let found = &self.vendors[i];
                if !found.active {
                    return Err(VendorError::VendorInactive);
                }
                let mut products_supplied = found.products_supplied.clone();
                proof {
                    assert(products_supplied@ =~= self.vendors@[i as int].products_supplied@);
                }
                products_supplied.push(product_sku);
                let patched = Vendor {
                    vendor_id: found.vendor_id.clone(),
                    name: found.name.clone(),
                    contact_address: found.contact_address,
                    phone: found.phone.clone(),
                    email: found.email.clone(),
                    category: found.category.clone(),
                    rating: found.rating,
                    active: found.active,
                    products_supplied,
                };
                let stored = patched.clone();
                proof {
                    let changed = self.vendors@.update(i as int, stored);
                    assert forall|a: int, b: int|
                        0 <= a < b < changed.len() implies (#[trigger] changed[a]).vendor_id@ != (
                    #[trigger] changed[b]).vendor_id@ by {
                        assert(self.vendors@[a].vendor_id@ != self.vendors@[b].vendor_id@);
                    }
                    assert forall|j: int|
                        0 <= j < changed.len() implies (#[trigger] changed[j]).rating <= 5 by {
                        if j != i {
                            assert(changed[j] == self.vendors@[j]);
                        }
                    }
                }
                self.vendors.set(i, stored);
                return Ok(patched);
            }
            i += 1;
        }
        Err(VendorError::VendorNotFound)
    }

    /// Sets whether a vendor is active. Admin-gated.
    #[verifier::loop_isolation(false)]
    pub fn set_vendor_status(
        &mut self,
        admin: AccountId,
        vendor_id: &String,
        active: bool,
    ) -> (outcome: Result<Vendor, VendorError>)
        requires
            old(self).wf(),
        ensures
            final(self).wf(),
            final(self).spec_admin() == old(self).spec_admin(),
            admin != old(self).spec_admin() ==> outcome == Err::<Vendor, VendorError>(
                VendorError::Unauthorized,
            ) && *final(self) == *old(self),
            admin == old(self).spec_admin() && spec_vendor_index(old(self).vendors(), vendor_id@)
                == -1 ==> outcome == Err::<Vendor, VendorError>(VendorError::VendorNotFound)
                && *final(self) == *old(self),
            admin == old(self).spec_admin() && spec_vendor_index(old(self).vendors(), vendor_id@)
                != -1 ==> (outcome matches Ok(vendor) && {
                let at = spec_vendor_index(old(self).vendors(), vendor_id@);
                let before = old(self).vendors()[at];
                &&& vendor.vendor_id == before.vendor_id
                &&& vendor.active == active
                &&& vendor.rating == before.rating
                &&& vendor.products_supplied@ == before.products_supplied@
                &&& final(self).vendors().len() == old(self).vendors().len()
                &&& (forall|j: int|
                    0 <= j < old(self).vendors().len() && j != at ==> #[trigger] final(self).vendors()[j] == old(self).vendors()[j])
                &&& spec_vendor_eq(final(self).vendors()[at], vendor)
            }),
    {
        if admin != self.admin {
            return Err(VendorError::Unauthorized);
        }
        proof {
            lemma_vendor_index(self.vendors@, vendor_id@);
        }
        let n = self.vendors.len();
        let mut i: usize = 0;
        while i < n
            invariant
                i <= n,
                n == self.vendors@.len(),
                forall|j: int|
                    0 <= j < i ==> (#[trigger] self.vendors@[j]).vendor_id@ != vendor_id@,
                *self == *old(self),
            decreases n - i,
        {
            if self.vendors[i].vendor_id.eq(vendor_id) {
                proof {
                    lemma_vendor_index_at(self.vendors@, i as int, vendor_id@);
                }
                let found = &self.vendors[i];
                let products_supplied = found.products_supplied.clone();
                proof {
                    assert(products_supplied@ =~= self.vendors@[i as int].products_supplied@);
                }
                let patched = Vendor {
                    vendor_id: found.vendor_id.clone(),
                    name: found.name.clone(),
                    contact_address: found.contact_address,
                    phone: found.phone.clone(),
                    email: found.email.clone(),
                    category: found.category.clone(),
                    rating: found.rating,
                    active,
                    products_supplied,
                };
                let stored = patched.clone();
                proof {
                    let changed = self.vendors@.update(i as int, stored);
                    assert forall|a: int, b: int|
                        0 <= a < b < changed.len() implies (#[trigger] changed[a]).vendor_id@ != (
                    #[trigger] changed[b]).vendor_id@ by {
                        assert(self.vendors@[a].vendor_id@ != self.vendors@[b].vendor_id@);
                    }
                    assert forall|j: int|
                        0 <= j < changed.len() implies (#[trigger] changed[j]).rating <= 5 by {
                        if j != i {
                            assert(changed[j] == self.vendors@[j]);
                        }
                    }
                }
                self.vendors.set(i, stored);
                return Ok(patched);
            }
            i += 1;
        }
        Err(VendorError::VendorNotFound)
    }

    /// Reads a vendor by identifier.
    #[verifier::loop_isolation(false)]
    pub fn get_vendor(&self, vendor_id: &String) -> (outcome: Result<Vendor, VendorError>)
        ensures
            spec_vendor_index(self.vendors(), vendor_id@) == -1 ==> outcome == Err::<
                Vendor,
                VendorError,
            >(VendorError::VendorNotFound),
            spec_vendor_index(self.vendors(), vendor_id@) != -1 ==> (outcome matches Ok(vendor)
                && spec_vendor_eq(
                vendor,
                self.vendors()[spec_vendor_index(self.vendors(), vendor_id@)],
            )),
    {
        proof {
            lemma_vendor_index(self.vendors@, vendor_id@);
        }
        let n = self.vendors.len();
        let mut i: usize = 0;
        while i < n
            invariant
                i <= n,
                n == self.vendors@.len(),
                forall|j: int|
                    0 <= j < i ==> (#[trigger] self.vendors@[j]).vendor_id@ != vendor_id@,
            decreases n - i,
        {
            if self.vendors[i].vendor_id.eq(vendor_id) {
                proof {
                    lemma_vendor_index_at(self.vendors@, i as int, vendor_id@);
                }
                return Ok(self.vendors[i].clone());
            }
            i += 1;
        }
        Err(VendorError::VendorNotFound)
    }

    /// Returns every registered vendor, in registration order.
    #[verifier::loop_isolation(false)]
    pub fn get_all_vendors(&self) -> (listed: Vec<Vendor>)
        ensures
            spec_vendors_eq(listed@, self.vendors()),
    {
        let ghost all = self.vendors@;
        let mut listed: Vec<Vendor> = Vec::new();
        let n = self.vendors.len();
        let mut i: usize = 0;
        while i < n
            invariant
                i <= n,
                n == all.len(),
                spec_vendors_eq(listed@, all.take(i as int)),
            decreases n - i,
        {
            let kept = self.vendors[i].clone();
            proof {
                assert(all.take(i as int).push(all[i as int]) =~= all.take(i + 1));
                lemma_vendors_eq_push(listed@, all.take(i as int), kept, all[i as int]);
            }
            listed.push(kept);
            i += 1;
        }
        proof {
            assert(all.take(n as int) =~= all);
        }
        listed
    }

    /// Returns the active vendors of the given category, in registration
    /// order.
    #[verifier::loop_isolation(false)]
    pub fn get_vendors_by_category(&self, category: &String) -> (selected: Vec<Vendor>)
        ensures
            spec_vendors_eq(selected@, spec_vendors_by_category(self.vendors(), category@)),
    {
        let ghost all = self.vendors@;
        let mut selected: Vec<Vendor> = Vec::new();
        let n = self.vendors.len();
        let mut i: usize = 0;
        proof {
            assert(all.take(0) =~= Seq::<Vendor>::empty());
            reveal(Seq::filter);
        }
        while i < n
            invariant
                i <= n,
                n == all.len(),
                spec_vendors_eq(selected@, spec_vendors_by_category(all.take(i as int), category@)),
            decreases n - i,
        {
            proof {
                lemma_vendor_filters_step(all, i as int, category@);
            }
            let vendor = &self.vendors[i];
            if vendor.category.eq(category) && vendor.active {
                let kept = vendor.clone();
                proof {
                    lemma_vendors_eq_push(
                        selected@,
                        spec_vendors_by_category(all.take(i as int), category@),
                        kept,
                        all[i as int],
                    );
                }
                selected.push(kept);
            }
            i += 1;
        }
        proof {
            assert(all.take(n as int) =~= all);
        }
        selected
    }

    /// Returns the active vendors whose name is exactly the query, in
    /// registration order.
    #[verifier::loop_isolation(false)]
    pub fn search_vendors(&self, query: &String) -> (selected: Vec<Vendor>)
        ensures
            spec_vendors_eq(selected@, spec_vendors_named(self.vendors(), query@)),
    {
        let ghost all = self.vendors@;
        let mut selected: Vec<Vendor> = Vec::new();
        let n = self.vendors.len();
        let mut i: usize = 0;
        proof {
            assert(all.take(0) =~= Seq::<Vendor>::empty());
            reveal(Seq::filter);
        }
        while i < n
            invariant
                i <= n,
                n == all.len(),
                spec_vendors_eq(selected@, spec_vendors_named(all.take(i as int), query@)),
            decreases n - i,
        {
            proof {
                lemma_vendor_filters_step(all, i as int, query@);
            }
            let vendor = &self.vendors[i];
            if vendor.name.eq(query) && vendor.active {
                let kept = vendor.clone();
                proof {
                    lemma_vendors_eq_push(
                        selected@,
                        spec_vendors_named(all.take(i as int), query@),
                        kept,
                        all[i as int],
                    );
                }
                selected.push(kept);
            }
            i += 1;
        }
        proof {
            assert(all.take(n as int) =~= all);
        }
        selected
    }

    /// A performance snapshot for one vendor: order figures are tracked by
    /// a collaborator and read as zero; the rating is the vendor's.
    pub fn get_vendor_performance(&self, vendor_id: &String) -> (outcome: Result<
        VendorPerformance,
        VendorError,
    >)
        ensures
            spec_vendor_index(self.vendors(), vendor_id@) == -1 ==> outcome == Err::<
                VendorPerformance,
                VendorError,
            >(VendorError::VendorNotFound),
            spec_vendor_index(self.vendors(), vendor_id@) != -1 ==> (outcome matches Ok(
                performance,
            ) && {
                &&& performance.vendor_id@ == vendor_id@
                &&& performance.total_orders == 0
                &&& performance.completed_orders == 0
                &&& performance.total_revenue == 0
                &&& performance.average_rating == self.vendors()[spec_vendor_index(
                    self.vendors(),
                    vendor_id@,
                )].rating
            }),
    {
        let vendor = match self.get_vendor(vendor_id) {
            Ok(vendor) => vendor,
            Err(error) => {
                return Err(error);
            },
        };
        Ok(
            VendorPerformance {
                vendor_id: vendor_id.clone(),
                total_orders: 0,
                completed_orders: 0,
                total_revenue: 0,
                average_rating: vendor.rating,
            },
        )
    }

    /// Whether the given identity is the configured administrator.
    pub fn is_admin(&self, address: AccountId) -> (admin: bool)
        ensures
            admin == (address == self.spec_admin()),
    {
        address == self.admin
    }

    /// Removes a vendor from the register. Admin-gated.
    #[verifier::loop_isolation(false)]
    pub fn remove_vendor(&mut self, admin: AccountId, vendor_id: &String) -> (outcome: Result<
        (),
        VendorError,
    >)
        requires
            old(self).wf(),
        ensures
            final(self).wf(),
            final(self).spec_admin() == old(self).spec_admin(),
            admin != old(self).spec_admin() ==> outcome == Err::<(), VendorError>(
                VendorError::Unauthorized,
            ) && *final(self) == *old(self),
            admin == old(self).spec_admin() && spec_vendor_index(old(self).vendors(), vendor_id@)
                == -1 ==> outcome == Err::<(), VendorError>(VendorError::VendorNotFound)
                && *final(self) == *old(self),
            admin == old(self).spec_admin() && spec_vendor_index(old(self).vendors(), vendor_id@)
                != -1 ==> outcome == Ok::<(), VendorError>(()) && final(self).vendors() == old(
                self,
            ).vendors().remove(spec_vendor_index(old(self).vendors(), vendor_id@)),
    {
        if admin != self.admin {
            return Err(VendorError::Unauthorized);
        }
        proof {
            lemma_vendor_index(self.vendors@, vendor_id@);
        }
        let n = self.vendors.len();
        let mut i: usize = 0;
        while i < n
            invariant
                i <= n,
                n == self.vendors@.len(),
                forall|j: int|
                    0 <= j < i ==> (#[trigger] self.vendors@[j]).vendor_id@ != vendor_id@,
                *self == *old(self),
            decreases n - i,
        {
            if self.vendors[i].vendor_id.eq(vendor_id) {
                proof {
                    lemma_vendor_index_at(self.vendors@, i as int, vendor_id@);
                    let removed = self.vendors@.remove(i as int);
                    assert forall|a: int, b: int|
                        0 <= a < b < removed.len() implies (#[trigger] removed[a]).vendor_id@ != (
                    #[trigger] removed[b]).vendor_id@ by {
                        let before_a: int = if a < i {
                            a
                        } else {
                            a + 1
                        };
                        let before_b: int = if b < i {
                            b
                        } else {
                            b + 1
                        };
                        assert(removed[a] == self.vendors@[before_a]);
                        assert(removed[b] == self.vendors@[before_b]);
                        assert(self.vendors@[before_a].vendor_id@
                            != self.vendors@[before_b].vendor_id@);
                    }
                    assert forall|j: int|
                        0 <= j < removed.len() implies (#[trigger] removed[j]).rating <= 5 by {
                        let before_j: int = if j < i {
                            j
                        } else {
                            j + 1
                        };
                        assert(removed[j] == self.vendors@[before_j]);
                    }
                }
                self.vendors.remove(i);
                return Ok(());
            }
            i += 1;
        }
        Err(VendorError::VendorNotFound)
    }

    /// How many vendors are registered.
    pub fn get_vendor_count(&self) -> (count: usize)
        ensures
            count == self.vendors().len(),
    {
        self.vendors.len()
    }

    /// Whether a vendor is registered under the identifier.
    #[verifier::loop_isolation(false)]
    pub fn vendor_exists(&self, vendor_id: &String) -> (present: bool)
        ensures
            present == (spec_vendor_index(self.vendors(), vendor_id@) != -1),
    {
        proof {
            lemma_vendor_index(self.vendors@, vendor_id@);
        }
        let n = self.vendors.len();
        let mut i: usize = 0;
        while i < n
            invariant
                i <= n,
                n == self.vendors@.len(),
                forall|j: int|
                    0 <= j < i ==> (#[trigger] self.vendors@[j]).vendor_id@ != vendor_id@,
            decreases n - i,
        {
            if self.vendors[i].vendor_id.eq(vendor_id) {
                proof {
                    lemma_vendor_index_at(self.vendors@, i as int, vendor_id@);
                }
                return true;
            }
            i += 1;
        }
        false
    }
}

} // verus!
