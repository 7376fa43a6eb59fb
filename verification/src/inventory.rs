//! The inventory manager: the product catalog keyed by stock-keeping
//! unit, with admin-gated mutations.

use vstd::prelude::*;
use crate::AccountId;
use crate::retail::RetailError;

verus! {

/// One catalog product.
#[derive(Debug)]
pub struct Product {
    /// The stock-keeping unit; unique in the catalog.
    pub sku: String,
    pub name: String,
    pub price: i128,
    pub stock_quantity: u32,
    /// The supplying vendor's identity.
    pub supplier: AccountId,
    pub location: String,
}

impl Clone for Product {
    fn clone(&self) -> (other: Self)
        ensures
            other == *self,
    {
        Product {
            sku: self.sku.clone(),
            name: self.name.clone(),
            price: self.price,
            stock_quantity: self.stock_quantity,
            supplier: self.supplier,
            location: self.location.clone(),
        }
    }
}

/// The index of the first product with the given stock-keeping unit, or
/// -1 when no product has it.
pub open spec fn spec_product_index(products: Seq<Product>, sku: Seq<char>) -> int
    decreases products.len(),
{
    if products.len() == 0 {
        -1
    } else if products.first().sku@ == sku {
        0
    } else {
        let rest = spec_product_index(products.drop_first(), sku);
        if rest == -1 {
            -1
        } else {
            rest + 1
        }
    }
}

/// What the first-match index means.
pub proof fn lemma_product_index(products: Seq<Product>, sku: Seq<char>)
    ensures
        spec_product_index(products, sku) == -1 <==> (forall|i: int|
            0 <= i < products.len() ==> (#[trigger] products[i]).sku@ != sku),
        spec_product_index(products, sku) != -1 ==> {
            let at = spec_product_index(products, sku);
            &&& 0 <= at < products.len()
            &&& products[at].sku@ == sku
            &&& (forall|j: int| 0 <= j < at ==> (#[trigger] products[j]).sku@ != sku)
        },
    decreases products.len(),
{
    if products.len() > 0 {
        lemma_product_index(products.drop_first(), sku);
        let rest = spec_product_index(products.drop_first(), sku);
        if products.first().sku@ == sku {
        } else if rest == -1 {
            assert forall|i: int|
                0 <= i < products.len() implies (#[trigger] products[i]).sku@ != sku by {
                if i > 0 {
                    assert(products.drop_first()[i - 1] == products[i]);
                }
            }
        } else {
            assert(products.drop_first()[rest] == products[rest + 1]);
            assert forall|j: int|
                0 <= j < rest + 1 implies (#[trigger] products[j]).sku@ != sku by {
                if j > 0 {
                    assert(products.drop_first()[j - 1] == products[j]);
                }
            }
        }
    }
}

/// The first-match index is `i` when the prefix before `i` is free of the
/// unit and the product at `i` has it.
pub proof fn lemma_product_index_at(products: Seq<Product>, i: int, sku: Seq<char>)
    requires
        0 <= i < products.len(),
        products[i].sku@ == sku,
        forall|j: int| 0 <= j < i ==> (#[trigger] products[j]).sku@ != sku,
    ensures
        spec_product_index(products, sku) == i,
    decreases i,
{
    if i > 0 {
        assert(products.first().sku@ != sku);
        assert(products.drop_first()[i - 1] == products[i]);
        assert forall|j: int|
            0 <= j < i - 1 implies (#[trigger] products.drop_first()[j]).sku@ != sku by {
            assert(products.drop_first()[j] == products[j + 1]);
        }
        lemma_product_index_at(products.drop_first(), i - 1, sku);
    }
}

/// The inventory manager instance.
pub struct InventoryManager {
    admin: AccountId,
    products: Vec<Product>,
}

impl InventoryManager {
    /// The configured administrator identity.
    pub closed spec fn spec_admin(&self) -> AccountId {
        self.admin
    }

    /// The catalog in insertion order.
    pub closed spec fn products(&self) -> Seq<Product> {
        self.products@
    }

    /// Stock-keeping units are unique in the catalog.
    pub closed spec fn wf(&self) -> bool {
        forall|i: int, j: int|
            0 <= i < j < self.products@.len() ==> (#[trigger] self.products@[i]).sku@ != (
            #[trigger] self.products@[j]).sku@
    }

    /// A fresh inventory manager with an empty catalog.
    pub fn initialize(admin: AccountId) -> (manager: Self)
        ensures
            manager.wf(),
            manager.spec_admin() == admin,
            manager.products() == Seq::<Product>::empty(),
    {
        InventoryManager { admin, products: Vec::new() }
    }

    /// Adds a product to the catalog. Admin-gated; rejects a duplicate
    /// stock-keeping unit.
    #[verifier::loop_isolation(false)]
    pub fn add_product(
        &mut self,
        admin: AccountId,
        sku: String,
        name: String,
        price: i128,
        initial_stock: u32,
        supplier: AccountId,
        location: String,
    ) -> (outcome: Result<Product, RetailError>)
        requires
            old(self).wf(),
        ensures
            final(self).wf(),
            final(self).spec_admin() == old(self).spec_admin(),
            admin != old(self).spec_admin() ==> outcome == Err::<Product, RetailError>(
                RetailError::Unauthorized,
            ) && *final(self) == *old(self),
            admin == old(self).spec_admin() && spec_product_index(old(self).products(), sku@) != -1
                ==> outcome == Err::<Product, RetailError>(RetailError::DuplicateEntry)
                && *final(self) == *old(self),
            admin == old(self).spec_admin() && spec_product_index(old(self).products(), sku@) == -1
                ==> (outcome matches Ok(product) && {
                &&& product == (Product {
                    sku,
                    name,
                    price,
                    stock_quantity: initial_stock,
                    supplier,
                    location,
                })
                &&& final(self).products() == old(self).products().push(product)
            }),
    {
        if admin != self.admin {
            return Err(RetailError::Unauthorized);
        }
        proof {
            lemma_product_index(self.products@, sku@);
        }
        let n = self.products.len();
        let mut i: usize = 0;
        while i < n
            invariant
                i <= n,
                n == self.products@.len(),
                forall|j: int| 0 <= j < i ==> (#[trigger] self.products@[j]).sku@ != sku@,
                *self == *old(self),
            decreases n - i,
        {
            if self.products[i].sku.eq(&sku) {
                return Err(RetailError::DuplicateEntry);
            }
            i += 1;
        }
        let product = Product { sku, name, price, stock_quantity: initial_stock, supplier, location };
        let stored = product.clone();
        proof {
            let p = self.products@.push(stored);
            assert forall|a: int, b: int|
                0 <= a < b < p.len() implies (#[trigger] p[a]).sku@ != (#[trigger] p[b]).sku@ by {
                if b < self.products@.len() {
                    assert(p[a] == self.products@[a]);
                    assert(p[b] == self.products@[b]);
                } else {
                    assert(p[a] == self.products@[a]);
                    assert(p[b] == stored);
                }
            }
        }
        self.products.push(stored);
        Ok(product)
    }

    /// Overwrites a product's stock count. Admin-gated.
    #[verifier::loop_isolation(false)]
    pub fn update_stock(&mut self, admin: AccountId, sku: &String, new_quantity: u32) -> (outcome:
        Result<Product, RetailError>)
        requires
            old(self).wf(),
        ensures
            final(self).wf(),
            final(self).spec_admin() == old(self).spec_admin(),
            admin != old(self).spec_admin() ==> outcome == Err::<Product, RetailError>(
                RetailError::Unauthorized,
            ) && *final(self) == *old(self),
            admin == old(self).spec_admin() && spec_product_index(old(self).products(), sku@) == -1
                ==> outcome == Err::<Product, RetailError>(RetailError::ProductNotFound)
                && *final(self) == *old(self),
            admin == old(self).spec_admin() && spec_product_index(old(self).products(), sku@) != -1
                ==> (outcome matches Ok(product) && {
                let at = spec_product_index(old(self).products(), sku@);
                &&& product == (Product {
                    stock_quantity: new_quantity,
                    ..old(self).products()[at]
                })
                &&& final(self).products() == old(self).products().update(at, product)
            }),
    {
        if admin != self.admin {
            return Err(RetailError::Unauthorized);
        }
        proof {
            lemma_product_index(self.products@, sku@);
        }
        let n = self.products.len();
        let mut i: usize = 0;
        while i < n
            invariant
                i <= n,
                n == self.products@.len(),
                forall|j: int| 0 <= j < i ==> (#[trigger] self.products@[j]).sku@ != sku@,
                *self == *old(self),
            decreases n - i,
        {
            if self.products[i].sku.eq(sku) {
                proof {
                    lemma_product_index_at(self.products@, i as int, sku@);
                }
                let found = &self.products[i];
                let updated = Product {
                    sku: found.sku.clone(),
                    name: found.name.clone(),
                    price: found.price,
                    stock_quantity: new_quantity,
                    supplier: found.supplier,
                    location: found.location.clone(),
                };
                let stored = updated.clone();
                proof {
                    let changed = self.products@.update(i as int, stored);
                    assert forall|a: int, b: int|
                        0 <= a < b < changed.len() implies (#[trigger] changed[a]).sku@ != (
                    #[trigger] changed[b]).sku@ by {
                        assert(self.products@[a].sku@ != self.products@[b].sku@);
                    }
                }
                self.products.set(i, stored);
                return Ok(updated);
            }
            i += 1;
        }
        Err(RetailError::ProductNotFound)
    }

    /// Reads a product by stock-keeping unit.
    #[verifier::loop_isolation(false)]
    pub fn get_product(&self, sku: &String) -> (outcome: Result<Product, RetailError>)
        ensures
            spec_product_index(self.products(), sku@) == -1 ==> outcome == Err::<
                Product,
                RetailError,
            >(RetailError::ProductNotFound),
            spec_product_index(self.products(), sku@) != -1 ==> outcome == Ok::<
                Product,
                RetailError,
            >(self.products()[spec_product_index(self.products(), sku@)]),
    {
        proof {
            lemma_product_index(self.products@, sku@);
        }
        let n = self.products.len();
        let mut i: usize = 0;
        while i < n
            invariant
                i <= n,
                n == self.products@.len(),
                forall|j: int| 0 <= j < i ==> (#[trigger] self.products@[j]).sku@ != sku@,
            decreases n - i,
        {
            if self.products[i].sku.eq(sku) {
                proof {
                    lemma_product_index_at(self.products@, i as int, sku@);
                }
                return Ok(self.products[i].clone());
            }
            i += 1;
        }
        Err(RetailError::ProductNotFound)
    }

    /// Returns the whole catalog, in insertion order.
    pub fn get_all_products(&self) -> (listed: Vec<Product>)
        ensures
            listed@ == self.products(),
    {
        let listed = self.products.clone();
        proof {
            assert(listed@ =~= self.products@);
        }
        listed
    }
}

} // verus!
