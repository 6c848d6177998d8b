//! Product commands.
//!
//! Products carry a unique code, list newest-first, and are soft-deleted:
//! deletion clears `is_active`, listing filters on it, and the by-code lookup
//! ignores it.

use vstd::prelude::*;

use crate::domain::Product;
use crate::error::CmdError;
use crate::ids::fresh_id;
use crate::ids::now_rfc3339;
use crate::seqs::lemma_all_rows_insert;
use crate::seqs::lemma_all_rows_update;
use crate::seqs::lemma_filter_sorted;
use crate::seqs::lemma_filter_take_step;
use crate::seqs::lemma_sorted_update;
use crate::seqs::lemma_take_full;
use crate::seqs::lemma_unique_insert;
use crate::seqs::lemma_unique_update_fresh;
use crate::seqs::sorted_by;
use crate::store::first_not;
use crate::store::first_where;
use crate::store::lemma_first_not_from_props;
use crate::store::lemma_first_where_from_props;
use crate::store::lemma_sorted_insert_desc;
use crate::store::opt_str_view;
use crate::store::product_code_key;
use crate::store::product_created_key;
use crate::store::product_id_key;
use crate::store::product_leq;
use crate::store::product_row_wf;
use crate::store::Store;
use crate::strcmp::seq_str_le;
use crate::strcmp::str_eq;
use crate::strcmp::str_le;

verus! {

/// A product row that is active (not soft-deleted).
pub open spec fn product_active() -> spec_fn(Product) -> bool {
    |p: Product| p.is_active->0 == 1
}

/// A product row with the given identifier.
pub open spec fn product_id_is(id: Seq<char>) -> spec_fn(Product) -> bool {
    |p: Product| opt_str_view(p.id) == id
}

/// A product row created no earlier than `ts`.
pub open spec fn product_created_ge(ts: Seq<char>) -> spec_fn(Product) -> bool {
    |p: Product| seq_str_le(ts, opt_str_view(p.created_at))
}

/// The first product row carrying the given code, if any; soft-deleted rows
/// count.
pub open spec fn product_with_code(s: Seq<Product>, code: Seq<char>) -> Option<Product>
    decreases s.len(),
{
    if s.len() == 0 {
        None
    } else if s[0].code@ == code {
        Some(s[0])
    } else {
        product_with_code(s.skip(1), code)
    }
}

/// The stored form of a created product: identifier and timestamps set,
/// price defaulted to 0 and the active flag to 1 when the caller omits them.
pub open spec fn stored_product(product: Product, id: Seq<char>, row: Product, ts: Seq<char>)
    -> bool {
    &&& row.id is Some && opt_str_view(row.id) == id
    &&& row.code == product.code
    &&& row.name == product.name
    &&& row.description == product.description
    &&& row.price == Some(if product.price is Some { product.price->0 } else { 0i64 })
    &&& row.category == product.category
    &&& row.subcategory == product.subcategory
    &&& row.weight == product.weight
    &&& row.supplier == product.supplier
    &&& row.internal_code == product.internal_code
    &&& row.is_active == Some(if product.is_active is Some { product.is_active->0 } else { 1i32 })
    &&& row.created_at is Some && opt_str_view(row.created_at) == ts
    &&& row.updated_at is Some && opt_str_view(row.updated_at) == ts
}

/// The stored form of an updated product: every business field replaced,
/// with price defaulted to 0 and the active flag to 1 when the caller omits
/// them; the row keeps its identity and creation time and gets a fresh
/// modification time.
pub open spec fn updated_product(product: Product, old_row: Product, stored: Product, ts: Seq<char>)
    -> bool {
    &&& stored.id == old_row.id
    &&& stored.code == product.code
    &&& stored.name == product.name
    &&& stored.description == product.description
    &&& stored.price == Some(if product.price is Some { product.price->0 } else { 0i64 })
    &&& stored.category == product.category
    &&& stored.subcategory == product.subcategory
    &&& stored.weight == product.weight
    &&& stored.supplier == product.supplier
    &&& stored.internal_code == product.internal_code
    &&& stored.is_active == Some(if product.is_active is Some { product.is_active->0 } else { 1i32 })
    &&& stored.created_at == old_row.created_at
    &&& stored.updated_at is Some && opt_str_view(stored.updated_at) == ts
}

impl Store {
    /// Lists the active products, newest first.
    pub fn get_products(&self) -> (r: Vec<Product>)
        requires
            self.wf(),
        ensures
            r@ == self.products@.filter(product_active()),
            sorted_by(r@, product_leq()),
    {
        let n = self.products.len();
        let mut out: Vec<Product> = Vec::new();
        let mut i: usize = 0;
        while i < n
            invariant
                i <= n,
                n == self.products@.len(),
                self.wf(),
                out@ == self.products@.take(i as int).filter(product_active()),
            decreases n - i,
        {
            let row = &self.products[i];
            assert(product_row_wf()(self.products@[i as int]));
            proof {
                lemma_filter_take_step(self.products@, product_active(), i as int);
            }
            if row.is_active.unwrap() == 1 {
                out.push(row.clone());
            }
            i = i + 1;
        }
        proof {
            lemma_take_full(self.products@);
            lemma_filter_sorted(self.products@, product_active(), product_leq());
        }
        out
    }

    /// Inserts a product row with the given identifier and timestamp.
    /// Mirrors the engine's unique checks on the identifier and the code.
    pub fn create_product_row(&mut self, product: Product, id: String, created_at: String) -> (r:
        Result<Product, CmdError>)
        requires
            old(self).wf(),
        ensures
            final(self).wf(),
            final(self).users == old(self).users,
            final(self).clients == old(self).clients,
            final(self).next_client_id == old(self).next_client_id,
            final(self).categories == old(self).categories,
            final(self).subcategories == old(self).subcategories,
            final(self).invoices == old(self).invoices,
            final(self).invoice_items == old(self).invoice_items,
            final(self).deliveries == old(self).deliveries,
            final(self).delivery_items == old(self).delivery_items,
            final(self).warehouse_groups == old(self).warehouse_groups,
            final(self).warehouse_items == old(self).warehouse_items,
            final(self).suppliers == old(self).suppliers,
            final(self).next_supplier_id == old(self).next_supplier_id,
            final(self).supplier_sectors == old(self).supplier_sectors,
            final(self).supplier_products == old(self).supplier_products,
            final(self).countries == old(self).countries,
            match r {
                Ok(row) => {
                    &&& forall|i: int|
                        0 <= i < old(self).products@.len() ==> opt_str_view(
                            (#[trigger] old(self).products@[i]).id,
                        ) != id@
                    &&& forall|i: int|
                        0 <= i < old(self).products@.len() ==> (#[trigger] old(
                            self,
                        ).products@[i]).code@ != product.code@
                    &&& row == (Product {
                        id: Some(id),
                        created_at: Some(created_at),
                        updated_at: Some(created_at),
                        ..product
                    })
                    &&& exists|stored: Product|
                        stored_product(product, id@, stored, created_at@) && final(self).products@
                            == old(self).products@.insert(
                            first_not(old(self).products@, product_created_ge(created_at@)),
                            stored,
                        )
                },
                Err(e) => {
                    let has_id = exists|i: int|
                        0 <= i < old(self).products@.len() && opt_str_view(
                            (#[trigger] old(self).products@[i]).id,
                        ) == id@;
                    let has_code = exists|i: int|
                        0 <= i < old(self).products@.len() && (#[trigger] old(
                            self,
                        ).products@[i]).code@ == product.code@;
                    &&& *final(self) == *old(self)
                    &&& (has_id || has_code)
                    &&& e matches CmdError::StorageError(m) && m@ == (if has_id {
                        "UNIQUE constraint failed: products.id"@
                    } else {
                        "UNIQUE constraint failed: products.code"@
                    })
                },
            },
    {
        let n = self.products.len();
        let mut i: usize = 0;
        while i < n
            invariant
                i <= n,
                n == self.products@.len(),
                self.wf(),
                forall|j: int|
                    0 <= j < i ==> opt_str_view((#[trigger] self.products@[j]).id) != id@,
            decreases n - i,
        {
            let row = &self.products[i];
            assert(product_row_wf()(self.products@[i as int]));
            if str_eq(row.id.as_ref().unwrap().as_str(), id.as_str()) {
                return Err(
                    CmdError::StorageError(
                        String::from_str("UNIQUE constraint failed: products.id"),
                    ),
                );
            }
            i = i + 1;
        }
        let mut i: usize = 0;
        while i < n
            invariant
                i <= n,
                n == self.products@.len(),
                self.wf(),
                forall|j: int| 0 <= j < i ==> (#[trigger] self.products@[j]).code@ != product.code@,
                forall|j: int|
                    0 <= j < n ==> opt_str_view((#[trigger] self.products@[j]).id) != id@,
            decreases n - i,
        {
            let row = &self.products[i];
            if str_eq(row.code.as_str(), product.code.as_str()) {
                return Err(
                    CmdError::StorageError(
                        String::from_str("UNIQUE constraint failed: products.code"),
                    ),
                );
            }
            i = i + 1;
        }
        let mut k: usize = 0;
        while k < n
            invariant
                k <= n,
                n == self.products@.len(),
                self.wf(),
                forall|j: int|
                    0 <= j < k ==> seq_str_le(
                        created_at@,
                        opt_str_view((#[trigger] self.products@[j]).created_at),
                    ),
            ensures
                k <= n,
                n == self.products@.len(),
                forall|j: int|
                    0 <= j < k ==> seq_str_le(
                        created_at@,
                        opt_str_view((#[trigger] self.products@[j]).created_at),
                    ),
                k < n ==> !seq_str_le(
                    created_at@,
                    opt_str_view(self.products@[k as int].created_at),
                ),
            decreases n - k,
        {
            let row = &self.products[k];
            assert(product_row_wf()(self.products@[k as int]));
            if !str_le(created_at.as_str(), row.created_at.as_ref().unwrap().as_str()) {
                break;
            }
            k = k + 1;
        }
        let p2 = product.clone();
        let stored = Product {
            id: Some(id.clone()),
            code: p2.code,
            name: p2.name,
            description: p2.description,
            price: Some(p2.price.unwrap_or(0)),
            category: p2.category,
            subcategory: p2.subcategory,
            weight: p2.weight,
            supplier: p2.supplier,
            internal_code: p2.internal_code,
            is_active: Some(p2.is_active.unwrap_or(1)),
            created_at: Some(created_at.clone()),
            updated_at: Some(created_at.clone()),
        };
        proof {
            lemma_first_not_from_props(
                self.products@,
                product_created_ge(created_at@),
                k as int,
            );
            lemma_sorted_insert_desc(self.products@, product_created_key(), stored, k as int);
            lemma_unique_insert(self.products@, product_id_key(), stored, k as int);
            lemma_unique_insert(self.products@, product_code_key(), stored, k as int);
            lemma_all_rows_insert(self.products@, product_row_wf(), stored, k as int);
            assert(stored_product(product, id@, stored, created_at@));
        }
        let ghost gstored = stored;
        self.products.insert(k, stored);
        proof {
            assert(stored_product(product, id@, gstored, created_at@) && self.products@ == old(
                self,
            ).products@.insert(
                first_not(old(self).products@, product_created_ge(created_at@)),
                gstored,
            ));
        }
        Ok(Product { id: Some(id), created_at: Some(created_at.clone()), updated_at: Some(created_at), ..product })
    }

    /// Creates a product with a fresh identifier and the current time.
    pub fn create_product(&mut self, product: Product) -> (r: Result<Product, CmdError>)
        requires
            old(self).wf(),
        ensures
            final(self).wf(),
            final(self).users == old(self).users,
            final(self).clients == old(self).clients,
            final(self).next_client_id == old(self).next_client_id,
            final(self).categories == old(self).categories,
            final(self).subcategories == old(self).subcategories,
            final(self).invoices == old(self).invoices,
            final(self).invoice_items == old(self).invoice_items,
            final(self).deliveries == old(self).deliveries,
            final(self).delivery_items == old(self).delivery_items,
            final(self).warehouse_groups == old(self).warehouse_groups,
            final(self).warehouse_items == old(self).warehouse_items,
            final(self).suppliers == old(self).suppliers,
            final(self).next_supplier_id == old(self).next_supplier_id,
            final(self).supplier_sectors == old(self).supplier_sectors,
            final(self).supplier_products == old(self).supplier_products,
            final(self).countries == old(self).countries,
            match r {
                Ok(row) => {
                    &&& forall|i: int|
                        0 <= i < old(self).products@.len() ==> (#[trigger] old(
                            self,
                        ).products@[i]).code@ != product.code@
                    &&& row.code@ == product.code@
                    &&& row.id is Some
                    &&& row.created_at is Some
                    &&& exists|stored: Product|
                        stored_product(product, opt_str_view(row.id), stored, opt_str_view(row.created_at))
                            && final(self).products@ == old(self).products@.insert(
                            first_not(
                                old(self).products@,
                                product_created_ge(opt_str_view(row.created_at)),
                            ),
                            stored,
                        )
                },
                Err(e) => e matches CmdError::StorageError(m),
            },
            r is Err ==> *final(self) == *old(self),
            (exists|i: int|
                0 <= i < old(self).products@.len() && (#[trigger] old(self).products@[i]).code@
                    == product.code@) ==> r is Err,
    {
        let id = fresh_id();
        let created_at = now_rfc3339();
        let ghost gp = product;
        let ghost gid = id@;
        let ghost gts = created_at@;
        let r = self.create_product_row(product, id, created_at);
        proof {
            if r is Ok {
                let row = r->Ok_0;
                let stored = choose|st: Product|
                    stored_product(gp, gid, st, gts) && self.products@ == old(
                        self,
                    ).products@.insert(
                        first_not(old(self).products@, product_created_ge(gts)),
                        st,
                    );
                assert(stored_product(
                    gp,
                    opt_str_view(row.id),
                    stored,
                    opt_str_view(row.created_at),
                ));
            }
        }
        r
    }

    /// Looks a product up by code, soft-deleted rows included.
    pub fn get_product_by_code(&self, code: String) -> (r: Option<Product>)
        requires
            self.wf(),
        ensures
            r == product_with_code(self.products@, code@),
    {
        let n = self.products.len();
        let mut i: usize = 0;
        proof {
            assert(self.products@.skip(0) =~= self.products@);
        }
        while i < n
            invariant
                i <= n,
                n == self.products@.len(),
                self.wf(),
                product_with_code(self.products@, code@) == product_with_code(
                    self.products@.skip(i as int),
                    code@,
                ),
            decreases n - i,
        {
            let row = &self.products[i];
            assert(self.products@.skip(i as int)[0] == self.products@[i as int]);
            if str_eq(row.code.as_str(), code.as_str()) {
                return Some(row.clone());
            }
            proof {
                assert(self.products@.skip(i as int).skip(1) =~= self.products@.skip(i + 1));
            }
            i = i + 1;
        }
        None
    }

    /// Updates the product with the given identifier; a missing row is a
    /// no-op.  The stored row keeps its creation time; the code must stay
    /// unique.
    pub fn update_product_row(&mut self, id: String, product: Product, updated_at: String) -> (r:
        Result<Product, CmdError>)
        requires
            old(self).wf(),
        ensures
            final(self).wf(),
            final(self).users == old(self).users,
            final(self).clients == old(self).clients,
            final(self).next_client_id == old(self).next_client_id,
            final(self).categories == old(self).categories,
            final(self).subcategories == old(self).subcategories,
            final(self).invoices == old(self).invoices,
            final(self).invoice_items == old(self).invoice_items,
            final(self).deliveries == old(self).deliveries,
            final(self).delivery_items == old(self).delivery_items,
            final(self).warehouse_groups == old(self).warehouse_groups,
            final(self).warehouse_items == old(self).warehouse_items,
            final(self).suppliers == old(self).suppliers,
            final(self).next_supplier_id == old(self).next_supplier_id,
            final(self).supplier_sectors == old(self).supplier_sectors,
            final(self).supplier_products == old(self).supplier_products,
            final(self).countries == old(self).countries,
            match r {
                Ok(row) => {
                    let idx = first_where(old(self).products@, product_id_is(id@));
                    &&& row == (Product { id: Some(id), updated_at: Some(updated_at), ..product })
                    &&& if idx < old(self).products@.len() {
                        exists|stored: Product|
                            updated_product(product, old(self).products@[idx], stored, updated_at@)
                                && final(self).products@ == old(self).products@.update(idx, stored)
                    } else {
                        final(self).products@ == old(self).products@
                    }
                },
                Err(e) => {
                    &&& *final(self) == *old(self)
                    &&& e matches CmdError::StorageError(m) && m@
                        == "UNIQUE constraint failed: products.code"@
                    &&& exists|j: int|
                        0 <= j < old(self).products@.len() && opt_str_view(
                            (#[trigger] old(self).products@[j]).id,
                        ) != id@ && old(self).products@[j].code@ == product.code@
                },
            },
    {
        let n = self.products.len();
        let mut i: usize = 0;
        while i < n
            invariant
                i <= n,
                n == self.products@.len(),
                self.wf(),
                forall|j: int|
                    0 <= j < i ==> opt_str_view((#[trigger] self.products@[j]).id) != id@,
            ensures
                i <= n,
                n == self.products@.len(),
                forall|j: int|
                    0 <= j < i ==> opt_str_view((#[trigger] self.products@[j]).id) != id@,
                i < n ==> opt_str_view(self.products@[i as int].id) == id@,
            decreases n - i,
        {
            let row = &self.products[i];
            assert(product_row_wf()(self.products@[i as int]));
            if str_eq(row.id.as_ref().unwrap().as_str(), id.as_str()) {
                break;
            }
            i = i + 1;
        }
        proof {
            lemma_first_where_from_props(self.products@, product_id_is(id@), i as int);
        }
        if i == n {
            return Ok(Product { id: Some(id), updated_at: Some(updated_at), ..product });
        }
        let mut j: usize = 0;
        while j < n
            invariant
                j <= n,
                n == self.products@.len(),
                self.wf(),
                i < n,
                opt_str_view(self.products@[i as int].id) == id@,
                forall|m: int|
                    0 <= m < j && m != i ==> (#[trigger] self.products@[m]).code@ != product.code@,
            decreases n - j,
        {
            if j != i {
                let row = &self.products[j];
                assert(product_row_wf()(self.products@[j as int]));
                if str_eq(row.code.as_str(), product.code.as_str()) {
                    proof {
                        if (j as int) < (i as int) {
                            assert(product_id_key()(self.products@[j as int]) != product_id_key()(
                                self.products@[i as int],
                            ));
                        } else {
                            assert(product_id_key()(self.products@[i as int]) != product_id_key()(
                                self.products@[j as int],
                            ));
                        }
                    }
                    assert(opt_str_view(self.products@[j as int].id) != id@);
                    return Err(
                        CmdError::StorageError(
                            String::from_str("UNIQUE constraint failed: products.code"),
                        ),
                    );
                }
            }
            j = j + 1;
        }
        let p2 = product.clone();
        let old_row = self.products.remove(i);
        let stored = Product {
            id: old_row.id,
            code: p2.code,
            name: p2.name,
            description: p2.description,
            price: Some(p2.price.unwrap_or(0)),
            category: p2.category,
            subcategory: p2.subcategory,
            weight: p2.weight,
            supplier: p2.supplier,
            internal_code: p2.internal_code,
            is_active: Some(p2.is_active.unwrap_or(1)),
            created_at: old_row.created_at,
            updated_at: Some(updated_at.clone()),
        };
        proof {
            let s = old(self).products@;
            assert(s.remove(i as int).insert(i as int, stored) =~= s.update(i as int, stored));
            lemma_sorted_update(s, product_leq(), stored, i as int);
            lemma_unique_update_fresh(s, product_id_key(), stored, i as int);
            lemma_unique_update_fresh(s, product_code_key(), stored, i as int);
            lemma_all_rows_update(s, product_row_wf(), stored, i as int);
        }
        self.products.insert(i, stored);
        Ok(Product { id: Some(id), updated_at: Some(updated_at), ..product })
    }

    /// Updates a product, stamping the modification time.
    pub fn update_product(&mut self, id: String, product: Product) -> (r: Result<Product, CmdError>)
        requires
            old(self).wf(),
        ensures
            final(self).wf(),
            final(self).users == old(self).users,
            final(self).clients == old(self).clients,
            final(self).next_client_id == old(self).next_client_id,
            final(self).categories == old(self).categories,
            final(self).subcategories == old(self).subcategories,
            final(self).invoices == old(self).invoices,
            final(self).invoice_items == old(self).invoice_items,
            final(self).deliveries == old(self).deliveries,
            final(self).delivery_items == old(self).delivery_items,
            final(self).warehouse_groups == old(self).warehouse_groups,
            final(self).warehouse_items == old(self).warehouse_items,
            final(self).suppliers == old(self).suppliers,
            final(self).next_supplier_id == old(self).next_supplier_id,
            final(self).supplier_sectors == old(self).supplier_sectors,
            final(self).supplier_products == old(self).supplier_products,
            final(self).countries == old(self).countries,
            match r {
                Ok(row) => {
                    &&& row == (Product { id: Some(id), updated_at: row.updated_at, ..product })
                    &&& row.updated_at is Some
                    &&& ({
                        let idx = first_where(old(self).products@, product_id_is(id@));
                        if idx < old(self).products@.len() {
                            exists|stored: Product|
                                updated_product(
                                    product,
                                    old(self).products@[idx],
                                    stored,
                                    opt_str_view(row.updated_at),
                                ) && final(self).products@ == old(self).products@.update(
                                    idx,
                                    stored,
                                )
                        } else {
                            final(self).products@ == old(self).products@
                        }
                    })
                },
                Err(e) => {
                    &&& *final(self) == *old(self)
                    &&& e matches CmdError::StorageError(m) && m@
                        == "UNIQUE constraint failed: products.code"@
                    &&& exists|j: int|
                        0 <= j < old(self).products@.len() && opt_str_view(
                            (#[trigger] old(self).products@[j]).id,
                        ) != id@ && old(self).products@[j].code@ == product.code@
                },
            },
    {
        let updated_at = now_rfc3339();
        let ghost gp = product;
        let ghost gid = id@;
        let ghost gts = updated_at@;
        let r = self.update_product_row(id, product, updated_at);
        proof {
            if r is Ok {
                let row = r->Ok_0;
                let idx = first_where(old(self).products@, product_id_is(gid));
                if idx < old(self).products@.len() {
                    let stored = choose|st: Product|
                        updated_product(gp, old(self).products@[idx], st, gts) && self.products@
                            == old(self).products@.update(idx, st);
                    assert(updated_product(
                        gp,
                        old(self).products@[idx],
                        stored,
                        opt_str_view(row.updated_at),
                    ));
                }
            }
        }
        r
    }

    /// Soft-deletes a product: clears its active flag but keeps the row.
    pub fn delete_product(&mut self, id: String) -> (r: Result<(), CmdError>)
        requires
            old(self).wf(),
        ensures
            final(self).wf(),
            r is Ok,
            final(self).users == old(self).users,
            final(self).clients == old(self).clients,
            final(self).next_client_id == old(self).next_client_id,
            final(self).categories == old(self).categories,
            final(self).subcategories == old(self).subcategories,
            final(self).invoices == old(self).invoices,
            final(self).invoice_items == old(self).invoice_items,
            final(self).deliveries == old(self).deliveries,
            final(self).delivery_items == old(self).delivery_items,
            final(self).warehouse_groups == old(self).warehouse_groups,
            final(self).warehouse_items == old(self).warehouse_items,
            final(self).suppliers == old(self).suppliers,
            final(self).next_supplier_id == old(self).next_supplier_id,
            final(self).supplier_sectors == old(self).supplier_sectors,
            final(self).supplier_products == old(self).supplier_products,
            final(self).countries == old(self).countries,
            ({
                let idx = first_where(old(self).products@, product_id_is(id@));
                if idx < old(self).products@.len() {
                    final(self).products@ == old(self).products@.update(
                        idx,
                        (Product { is_active: Some(0), ..old(self).products@[idx] }),
                    )
                } else {
                    final(self).products@ == old(self).products@
                }
            }),
    {
        let n = self.products.len();
        let mut i: usize = 0;
        while i < n
            invariant
                i <= n,
                n == self.products@.len(),
                self.wf(),
                forall|j: int|
                    0 <= j < i ==> opt_str_view((#[trigger] self.products@[j]).id) != id@,
            ensures
                i <= n,
                n == self.products@.len(),
                forall|j: int|
                    0 <= j < i ==> opt_str_view((#[trigger] self.products@[j]).id) != id@,
                i < n ==> opt_str_view(self.products@[i as int].id) == id@,
            decreases n - i,
        {
            let row = &self.products[i];
            assert(product_row_wf()(self.products@[i as int]));
            if str_eq(row.id.as_ref().unwrap().as_str(), id.as_str()) {
                break;
            }
            i = i + 1;
        }
        proof {
            lemma_first_where_from_props(self.products@, product_id_is(id@), i as int);
        }
        if i == n {
            return Ok(());
        }
        let old_row = self.products.remove(i);
        let stored = Product { is_active: Some(0), ..old_row };
        proof {
            let s = old(self).products@;
            assert(s.remove(i as int).insert(i as int, stored) =~= s.update(i as int, stored));
            lemma_sorted_update(s, product_leq(), stored, i as int);
            lemma_unique_update_fresh(s, product_id_key(), stored, i as int);
            lemma_unique_update_fresh(s, product_code_key(), stored, i as int);
            lemma_all_rows_update(s, product_row_wf(), stored, i as int);
        }
        self.products.insert(i, stored);
        Ok(())
    }
}

} // verus!
