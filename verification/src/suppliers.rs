//! Supplier commands: sectors, the sector's products, and suppliers.
//!
//! Sectors mirror categories (unique name, cascade delete to their products);
//! suppliers mirror clients (auto-increment identifier) but are soft-deleted
//! like products.

use vstd::prelude::*;

use crate::domain::Supplier;
use crate::domain::SupplierProduct;
use crate::domain::SupplierSector;
use crate::error::CmdError;
use crate::ids::fresh_id;
use crate::ids::now_rfc3339;
use crate::seqs::lemma_all_rows_insert;
use crate::seqs::lemma_all_rows_update;
use crate::seqs::lemma_filter_all_rows;
use crate::seqs::lemma_filter_sorted;
use crate::seqs::lemma_filter_take_step;
use crate::seqs::lemma_filter_unique_by;
use crate::seqs::lemma_sorted_update;
use crate::seqs::lemma_take_full;
use crate::seqs::lemma_unique_insert;
use crate::seqs::lemma_unique_update_fresh;
use crate::seqs::sorted_by;
use crate::store::first_not;
use crate::store::first_where;
use crate::store::lemma_first_not_from_props;
use crate::store::lemma_first_where_from_props;
use crate::store::lemma_sorted_insert_asc;
use crate::store::lemma_sorted_insert_desc;
use crate::store::opt_str_view;
use crate::store::sector_id_key;
use crate::store::sector_leq;
use crate::store::sector_name_key;
use crate::store::sector_row_wf;
use crate::store::supplier_created_key;
use crate::store::supplier_id_below;
use crate::store::supplier_id_key;
use crate::store::supplier_leq;
use crate::store::supplier_product_id_key;
use crate::store::supplier_product_name_key;
use crate::store::supplier_product_leq;
use crate::store::supplier_product_row_wf;
use crate::store::supplier_row_wf;
use crate::store::Store;
use crate::strcmp::seq_str_le;
use crate::strcmp::str_eq;
use crate::strcmp::str_le;

verus! {

/// A sector row whose name is at most `n`.
pub open spec fn sector_name_le(n: Seq<char>) -> spec_fn(SupplierSector) -> bool {
    |s: SupplierSector| seq_str_le(s.name@, n)
}

/// A sector row whose identifier differs from `id`.
pub open spec fn sector_id_not(id: Seq<char>) -> spec_fn(SupplierSector) -> bool {
    |s: SupplierSector| opt_str_view(s.id) != id
}

/// A supplier-product row that belongs to sector `sec`.
pub open spec fn sp_in_sector(sec: Seq<char>) -> spec_fn(SupplierProduct) -> bool {
    |p: SupplierProduct| p.sector_id@ == sec
}

/// A supplier-product row that does not belong to sector `sec`.
pub open spec fn sp_not_in_sector(sec: Seq<char>) -> spec_fn(SupplierProduct) -> bool {
    |p: SupplierProduct| p.sector_id@ != sec
}

/// A supplier-product row whose identifier differs from `id`.
pub open spec fn sp_id_not(id: Seq<char>) -> spec_fn(SupplierProduct) -> bool {
    |p: SupplierProduct| opt_str_view(p.id) != id
}

/// A supplier-product row whose name is at most `n`.
pub open spec fn sp_name_le(n: Seq<char>) -> spec_fn(SupplierProduct) -> bool {
    |p: SupplierProduct| seq_str_le(p.name@, n)
}

/// A supplier row that is active (not soft-deleted).
pub open spec fn supplier_active() -> spec_fn(Supplier) -> bool {
    |s: Supplier| s.is_active->0 == 1
}

/// A supplier row with the given identifier.
pub open spec fn supplier_id_is(id: i64) -> spec_fn(Supplier) -> bool {
    |s: Supplier| s.id->0 == id
}

/// A supplier row created no earlier than `ts`.
pub open spec fn supplier_created_ge(ts: Seq<char>) -> spec_fn(Supplier) -> bool {
    |s: Supplier| seq_str_le(ts, opt_str_view(s.created_at))
}

/// The stored form of a created supplier: identifier and timestamp set, the
/// active flag defaulted to 1 when the caller omits it.
pub open spec fn stored_supplier(supplier: Supplier, id: i64, row: Supplier, ts: Seq<char>)
    -> bool {
    row == (Supplier {
        id: Some(id),
        is_active: Some(
            if supplier.is_active is Some {
                supplier.is_active->0
            } else {
                1i32
            },
        ),
        created_at: row.created_at,
        ..supplier
    }) && row.created_at is Some && opt_str_view(row.created_at) == ts
}

impl Store {
    /// Lists every supplier sector, in ascending name order.
    pub fn get_supplier_sectors(&self) -> (r: Vec<SupplierSector>)
        requires
            self.wf(),
        ensures
            r@ == self.supplier_sectors@,
            sorted_by(r@, sector_leq()),
    {
        let n = self.supplier_sectors.len();
        let mut out: Vec<SupplierSector> = Vec::new();
        let mut i: usize = 0;
        while i < n
            invariant
                i <= n,
                n == self.supplier_sectors@.len(),
                out@ == self.supplier_sectors@.take(i as int),
            decreases n - i,
        {
            out.push(self.supplier_sectors[i].clone());
            proof {
                assert(self.supplier_sectors@.take(i + 1) =~= self.supplier_sectors@.take(
                    i as int,
                ).push(self.supplier_sectors@[i as int]));
            }
            i = i + 1;
        }
        proof {
            lemma_take_full(self.supplier_sectors@);
        }
        out
    }

    /// Inserts a sector row with the given identifier and timestamp.
    pub fn create_supplier_sector_row(&mut self, id: String, name: String, created_at: String)
        -> (r: Result<SupplierSector, CmdError>)
        requires
            old(self).wf(),
        ensures
            final(self).wf(),
            final(self).users == old(self).users,
            final(self).clients == old(self).clients,
            final(self).next_client_id == old(self).next_client_id,
            final(self).products == old(self).products,
            final(self).categories == old(self).categories,
            final(self).subcategories == old(self).subcategories,
            final(self).invoices == old(self).invoices,
            final(self).invoice_items == old(self).invoice_items,
            final(self).deliveries == old(self).deliveries,
            final(self).delivery_items == old(self).delivery_items,
            final(self).warehouse_groups == old(self).warehouse_groups,
            final(self).warehouse_items == old(self).warehouse_items,
            final(self).suppliers == old(self).suppliers,
            final(self).next_supplier_id == old(self).next_supplier_id,
            final(self).supplier_products == old(self).supplier_products,
            final(self).countries == old(self).countries,
            match r {
                Ok(row) => {
                    &&& forall|i: int|
                        0 <= i < old(self).supplier_sectors@.len() ==> opt_str_view(
                            (#[trigger] old(self).supplier_sectors@[i]).id,
                        ) != id@
                    &&& forall|i: int|
                        0 <= i < old(self).supplier_sectors@.len() ==> (#[trigger] old(
                            self,
                        ).supplier_sectors@[i]).name@ != name@
                    &&& row == (SupplierSector {
                        id: Some(id),
                        name: name,
                        created_at: Some(created_at),
                    })
                    &&& 0 <= first_not(old(self).supplier_sectors@, sector_name_le(name@))
                        <= old(self).supplier_sectors@.len()
                    &&& final(self).supplier_sectors@.len() == old(self).supplier_sectors@.len()
                        + 1
                    &&& final(self).supplier_sectors@ == old(self).supplier_sectors@.insert(
                        first_not(old(self).supplier_sectors@, sector_name_le(name@)),
                        row,
                    )
                },
                Err(e) => {
                    let has_id = exists|i: int|
                        0 <= i < old(self).supplier_sectors@.len() && opt_str_view(
                            (#[trigger] old(self).supplier_sectors@[i]).id,
                        ) == id@;
                    let has_name = exists|i: int|
                        0 <= i < old(self).supplier_sectors@.len() && (#[trigger] old(
                            self,
                        ).supplier_sectors@[i]).name@ == name@;
                    &&& *final(self) == *old(self)
                    &&& (has_id || has_name)
                    &&& e matches CmdError::StorageError(m) && m@ == (if has_id {
                        "UNIQUE constraint failed: supplier_sectors.id"@
                    } else {
                        "UNIQUE constraint failed: supplier_sectors.name"@
                    })
                },
            },
    {
        let n = self.supplier_sectors.len();
        let mut i: usize = 0;
        while i < n
            invariant
                i <= n,
                n == self.supplier_sectors@.len(),
                self.wf(),
                forall|j: int|
                    0 <= j < i ==> opt_str_view((#[trigger] self.supplier_sectors@[j]).id) != id@,
            decreases n - i,
        {
            let row = &self.supplier_sectors[i];
            assert(sector_row_wf()(self.supplier_sectors@[i as int]));
            if str_eq(row.id.as_ref().unwrap().as_str(), id.as_str()) {
                return Err(
                    CmdError::StorageError(
                        String::from_str("UNIQUE constraint failed: supplier_sectors.id"),
                    ),
                );
            }
            i = i + 1;
        }
        let mut i: usize = 0;
        while i < n
            invariant
                i <= n,
                n == self.supplier_sectors@.len(),
                self.wf(),
                forall|j: int| 0 <= j < i ==> (#[trigger] self.supplier_sectors@[j]).name@ != name@,
                forall|j: int|
                    0 <= j < n ==> opt_str_view((#[trigger] self.supplier_sectors@[j]).id) != id@,
            decreases n - i,
        {
            let row = &self.supplier_sectors[i];
            if str_eq(row.name.as_str(), name.as_str()) {
                return Err(
                    CmdError::StorageError(
                        String::from_str("UNIQUE constraint failed: supplier_sectors.name"),
                    ),
                );
            }
            i = i + 1;
        }
        let mut k: usize = 0;
        while k < n
            invariant
                k <= n,
                n == self.supplier_sectors@.len(),
                self.wf(),
                forall|j: int|
                    0 <= j < k ==> seq_str_le((#[trigger] self.supplier_sectors@[j]).name@, name@),
            ensures
                k <= n,
                n == self.supplier_sectors@.len(),
                forall|j: int|
                    0 <= j < k ==> seq_str_le((#[trigger] self.supplier_sectors@[j]).name@, name@),
                k < n ==> !seq_str_le(self.supplier_sectors@[k as int].name@, name@),
            decreases n - k,
        {
            if !str_le(self.supplier_sectors[k].name.as_str(), name.as_str()) {
                break;
            }
            k = k + 1;
        }
        let row = SupplierSector { id: Some(id), name: name, created_at: Some(created_at) };
        let stored = row.clone();
        proof {
            lemma_first_not_from_props(self.supplier_sectors@, sector_name_le(row.name@), k as int);
            lemma_sorted_insert_asc(self.supplier_sectors@, sector_name_key(), stored, k as int);
            lemma_unique_insert(self.supplier_sectors@, sector_id_key(), stored, k as int);
            lemma_unique_insert(self.supplier_sectors@, sector_name_key(), stored, k as int);
            lemma_all_rows_insert(self.supplier_sectors@, sector_row_wf(), stored, k as int);
        }
        self.supplier_sectors.insert(k, stored);
        Ok(row)
    }

    /// Creates a supplier sector with a fresh identifier and the current
    /// time.
    pub fn create_supplier_sector(&mut self, sector: SupplierSector) -> (r: Result<
        SupplierSector,
        CmdError,
    >)
        requires
            old(self).wf(),
        ensures
            final(self).wf(),
            final(self).users == old(self).users,
            final(self).clients == old(self).clients,
            final(self).next_client_id == old(self).next_client_id,
            final(self).products == old(self).products,
            final(self).categories == old(self).categories,
            final(self).subcategories == old(self).subcategories,
            final(self).invoices == old(self).invoices,
            final(self).invoice_items == old(self).invoice_items,
            final(self).deliveries == old(self).deliveries,
            final(self).delivery_items == old(self).delivery_items,
            final(self).warehouse_groups == old(self).warehouse_groups,
            final(self).warehouse_items == old(self).warehouse_items,
            final(self).suppliers == old(self).suppliers,
            final(self).next_supplier_id == old(self).next_supplier_id,
            final(self).supplier_products == old(self).supplier_products,
            final(self).countries == old(self).countries,
            match r {
                Ok(row) => {
                    &&& forall|i: int|
                        0 <= i < old(self).supplier_sectors@.len() ==> (#[trigger] old(
                            self,
                        ).supplier_sectors@[i]).name@ != sector.name@
                    &&& row.name@ == sector.name@
                    &&& row.id is Some
                    &&& row.created_at is Some
                    &&& final(self).supplier_sectors@ == old(self).supplier_sectors@.insert(
                        first_not(old(self).supplier_sectors@, sector_name_le(sector.name@)),
                        row,
                    )
                },
                Err(e) => {
                    &&& *final(self) == *old(self)
                    &&& e matches CmdError::StorageError(m)
                },
            },
            (exists|i: int|
                0 <= i < old(self).supplier_sectors@.len() && (#[trigger] old(
                    self,
                ).supplier_sectors@[i]).name@ == sector.name@) ==> r is Err,
    {
        let id = fresh_id();
        let created_at = now_rfc3339();
        self.create_supplier_sector_row(id, sector.name, created_at)
    }

    /// Deletes a sector and, first, every supplier product that references
    /// it.
    pub fn delete_supplier_sector(&mut self, id: String) -> (r: Result<(), CmdError>)
        requires
            old(self).wf(),
        ensures
            final(self).wf(),
            r is Ok,
            final(self).users == old(self).users,
            final(self).clients == old(self).clients,
            final(self).next_client_id == old(self).next_client_id,
            final(self).products == old(self).products,
            final(self).categories == old(self).categories,
            final(self).subcategories == old(self).subcategories,
            final(self).invoices == old(self).invoices,
            final(self).invoice_items == old(self).invoice_items,
            final(self).deliveries == old(self).deliveries,
            final(self).delivery_items == old(self).delivery_items,
            final(self).warehouse_groups == old(self).warehouse_groups,
            final(self).warehouse_items == old(self).warehouse_items,
            final(self).suppliers == old(self).suppliers,
            final(self).next_supplier_id == old(self).next_supplier_id,
            final(self).countries == old(self).countries,
            final(self).supplier_products@ == old(self).supplier_products@.filter(
                sp_not_in_sector(id@),
            ),
            final(self).supplier_sectors@ == old(self).supplier_sectors@.filter(sector_id_not(id@)),
    {
        let n = self.supplier_products.len();
        let mut kept: Vec<SupplierProduct> = Vec::new();
        let mut i: usize = 0;
        while i < n
            invariant
                i <= n,
                n == self.supplier_products@.len(),
                self.wf(),
                kept@ == self.supplier_products@.take(i as int).filter(sp_not_in_sector(id@)),
            decreases n - i,
        {
            let row = &self.supplier_products[i];
            proof {
                lemma_filter_take_step(self.supplier_products@, sp_not_in_sector(id@), i as int);
            }
            if !str_eq(row.sector_id.as_str(), id.as_str()) {
                kept.push(row.clone());
            }
            i = i + 1;
        }
        proof {
            lemma_take_full(self.supplier_products@);
            lemma_filter_all_rows(
                self.supplier_products@,
                sp_not_in_sector(id@),
                supplier_product_row_wf(),
            );
            lemma_filter_unique_by(
                self.supplier_products@,
                sp_not_in_sector(id@),
                supplier_product_id_key(),
            );
            lemma_filter_sorted(
                self.supplier_products@,
                sp_not_in_sector(id@),
                supplier_product_leq(),
            );
        }
        self.supplier_products = kept;

        let n = self.supplier_sectors.len();
        let mut kept: Vec<SupplierSector> = Vec::new();
        let mut i: usize = 0;
        while i < n
            invariant
                i <= n,
                n == self.supplier_sectors@.len(),
                self.wf(),
                kept@ == self.supplier_sectors@.take(i as int).filter(sector_id_not(id@)),
            decreases n - i,
        {
            let row = &self.supplier_sectors[i];
            assert(sector_row_wf()(self.supplier_sectors@[i as int]));
            proof {
                lemma_filter_take_step(self.supplier_sectors@, sector_id_not(id@), i as int);
            }
            if !str_eq(row.id.as_ref().unwrap().as_str(), id.as_str()) {
                kept.push(row.clone());
            }
            i = i + 1;
        }
        proof {
            lemma_take_full(self.supplier_sectors@);
            lemma_filter_all_rows(self.supplier_sectors@, sector_id_not(id@), sector_row_wf());
            lemma_filter_unique_by(self.supplier_sectors@, sector_id_not(id@), sector_id_key());
            lemma_filter_unique_by(self.supplier_sectors@, sector_id_not(id@), sector_name_key());
            lemma_filter_sorted(self.supplier_sectors@, sector_id_not(id@), sector_leq());
        }
        self.supplier_sectors = kept;
        Ok(())
    }

    /// Lists every supplier product, in ascending name order.
    pub fn get_supplier_products(&self) -> (r: Vec<SupplierProduct>)
        requires
            self.wf(),
        ensures
            r@ == self.supplier_products@,
            sorted_by(r@, supplier_product_leq()),
    {
        let n = self.supplier_products.len();
        let mut out: Vec<SupplierProduct> = Vec::new();
        let mut i: usize = 0;
        while i < n
            invariant
                i <= n,
                n == self.supplier_products@.len(),
                out@ == self.supplier_products@.take(i as int),
            decreases n - i,
        {
            out.push(self.supplier_products[i].clone());
            proof {
                assert(self.supplier_products@.take(i + 1) =~= self.supplier_products@.take(
                    i as int,
                ).push(self.supplier_products@[i as int]));
            }
            i = i + 1;
        }
        proof {
            lemma_take_full(self.supplier_products@);
        }
        out
    }

    /// Lists the supplier products of one sector, in ascending name order.
    pub fn get_supplier_products_by_sector(&self, sector_id: String) -> (r: Vec<SupplierProduct>)
        requires
            self.wf(),
        ensures
            r@ == self.supplier_products@.filter(sp_in_sector(sector_id@)),
            sorted_by(r@, supplier_product_leq()),
    {
        let n = self.supplier_products.len();
        let mut out: Vec<SupplierProduct> = Vec::new();
        let mut i: usize = 0;
        while i < n
            invariant
                i <= n,
                n == self.supplier_products@.len(),
                self.wf(),
                out@ == self.supplier_products@.take(i as int).filter(sp_in_sector(sector_id@)),
            decreases n - i,
        {
            let row = &self.supplier_products[i];
            proof {
                lemma_filter_take_step(self.supplier_products@, sp_in_sector(sector_id@), i as int);
            }
            if str_eq(row.sector_id.as_str(), sector_id.as_str()) {
                out.push(row.clone());
            }
            i = i + 1;
        }
        proof {
            lemma_take_full(self.supplier_products@);
            lemma_filter_sorted(
                self.supplier_products@,
                sp_in_sector(sector_id@),
                supplier_product_leq(),
            );
        }
        out
    }

    /// Inserts a supplier-product row with the given identifier and
    /// timestamp.
    pub fn create_supplier_product_row(
        &mut self,
        id: String,
        name: String,
        sector_id: String,
        created_at: String,
    ) -> (r: Result<SupplierProduct, CmdError>)
        requires
            old(self).wf(),
        ensures
            final(self).wf(),
            final(self).users == old(self).users,
            final(self).clients == old(self).clients,
            final(self).next_client_id == old(self).next_client_id,
            final(self).products == old(self).products,
            final(self).categories == old(self).categories,
            final(self).subcategories == old(self).subcategories,
            final(self).invoices == old(self).invoices,
            final(self).invoice_items == old(self).invoice_items,
            final(self).deliveries == old(self).deliveries,
            final(self).delivery_items == old(self).delivery_items,
            final(self).warehouse_groups == old(self).warehouse_groups,
            final(self).warehouse_items == old(self).warehouse_items,
            final(self).suppliers == old(self).suppliers,
            final(self).next_supplier_id == old(self).next_supplier_id,
            final(self).supplier_sectors == old(self).supplier_sectors,
            final(self).countries == old(self).countries,
            match r {
                Ok(row) => {
                    &&& forall|i: int|
                        0 <= i < old(self).supplier_products@.len() ==> opt_str_view(
                            (#[trigger] old(self).supplier_products@[i]).id,
                        ) != id@
                    &&& row == (SupplierProduct {
                        id: Some(id),
                        name: name,
                        sector_id: sector_id,
                        created_at: Some(created_at),
                    })
                    &&& final(self).supplier_products@ == old(self).supplier_products@.insert(
                        first_not(old(self).supplier_products@, sp_name_le(name@)),
                        row,
                    )
                },
                Err(e) => {
                    &&& *final(self) == *old(self)
                    &&& (exists|i: int|
                        0 <= i < old(self).supplier_products@.len() && opt_str_view(
                            (#[trigger] old(self).supplier_products@[i]).id,
                        ) == id@)
                    &&& e matches CmdError::StorageError(m) && m@
                        == "UNIQUE constraint failed: supplier_products.id"@
                },
            },
    {
        let n = self.supplier_products.len();
        let mut i: usize = 0;
        while i < n
            invariant
                i <= n,
                n == self.supplier_products@.len(),
                self.wf(),
                forall|j: int|
                    0 <= j < i ==> opt_str_view((#[trigger] self.supplier_products@[j]).id) != id@,
            decreases n - i,
        {
            let row = &self.supplier_products[i];
            assert(supplier_product_row_wf()(self.supplier_products@[i as int]));
            if str_eq(row.id.as_ref().unwrap().as_str(), id.as_str()) {
                return Err(
                    CmdError::StorageError(
                        String::from_str("UNIQUE constraint failed: supplier_products.id"),
                    ),
                );
            }
            i = i + 1;
        }
        let mut k: usize = 0;
        while k < n
            invariant
                k <= n,
                n == self.supplier_products@.len(),
                self.wf(),
                forall|j: int|
                    0 <= j < k ==> seq_str_le((#[trigger] self.supplier_products@[j]).name@, name@),
            ensures
                k <= n,
                n == self.supplier_products@.len(),
                forall|j: int|
                    0 <= j < k ==> seq_str_le((#[trigger] self.supplier_products@[j]).name@, name@),
                k < n ==> !seq_str_le(self.supplier_products@[k as int].name@, name@),
            decreases n - k,
        {
            if !str_le(self.supplier_products[k].name.as_str(), name.as_str()) {
                break;
            }
            k = k + 1;
        }
        let row = SupplierProduct {
            id: Some(id),
            name: name,
            sector_id: sector_id,
            created_at: Some(created_at),
        };
        let stored = row.clone();
        proof {
            lemma_first_not_from_props(self.supplier_products@, sp_name_le(row.name@), k as int);
            lemma_sorted_insert_asc(self.supplier_products@, supplier_product_name_key(), stored, k as int);
            lemma_unique_insert(self.supplier_products@, supplier_product_id_key(), stored, k as int);
            lemma_all_rows_insert(
                self.supplier_products@,
                supplier_product_row_wf(),
                stored,
                k as int,
            );
        }
        self.supplier_products.insert(k, stored);
        Ok(row)
    }

    /// Creates a supplier product with a fresh identifier and the current
    /// time.
    pub fn create_supplier_product(&mut self, product: SupplierProduct) -> (r: Result<
        SupplierProduct,
        CmdError,
    >)
        requires
            old(self).wf(),
        ensures
            final(self).wf(),
            final(self).users == old(self).users,
            final(self).clients == old(self).clients,
            final(self).next_client_id == old(self).next_client_id,
            final(self).products == old(self).products,
            final(self).categories == old(self).categories,
            final(self).subcategories == old(self).subcategories,
            final(self).invoices == old(self).invoices,
            final(self).invoice_items == old(self).invoice_items,
            final(self).deliveries == old(self).deliveries,
            final(self).delivery_items == old(self).delivery_items,
            final(self).warehouse_groups == old(self).warehouse_groups,
            final(self).warehouse_items == old(self).warehouse_items,
            final(self).suppliers == old(self).suppliers,
            final(self).next_supplier_id == old(self).next_supplier_id,
            final(self).supplier_sectors == old(self).supplier_sectors,
            final(self).countries == old(self).countries,
            match r {
                Ok(row) => {
                    &&& row.name@ == product.name@
                    &&& row.sector_id@ == product.sector_id@
                    &&& row.id is Some
                    &&& row.created_at is Some
                    &&& final(self).supplier_products@ == old(self).supplier_products@.insert(
                        first_not(old(self).supplier_products@, sp_name_le(product.name@)),
                        row,
                    )
                },
                Err(e) => *final(self) == *old(self),
            },
    {
        let id = fresh_id();
        let created_at = now_rfc3339();
        self.create_supplier_product_row(id, product.name, product.sector_id, created_at)
    }

    /// Deletes one supplier product by identifier.
    pub fn delete_supplier_product(&mut self, id: String) -> (r: Result<(), CmdError>)
        requires
            old(self).wf(),
        ensures
            final(self).wf(),
            r is Ok,
            final(self).users == old(self).users,
            final(self).clients == old(self).clients,
            final(self).next_client_id == old(self).next_client_id,
            final(self).products == old(self).products,
            final(self).categories == old(self).categories,
            final(self).subcategories == old(self).subcategories,
            final(self).invoices == old(self).invoices,
            final(self).invoice_items == old(self).invoice_items,
            final(self).deliveries == old(self).deliveries,
            final(self).delivery_items == old(self).delivery_items,
            final(self).warehouse_groups == old(self).warehouse_groups,
            final(self).warehouse_items == old(self).warehouse_items,
            final(self).suppliers == old(self).suppliers,
            final(self).next_supplier_id == old(self).next_supplier_id,
            final(self).supplier_sectors == old(self).supplier_sectors,
            final(self).countries == old(self).countries,
            final(self).supplier_products@ == old(self).supplier_products@.filter(sp_id_not(id@)),
    {
        let n = self.supplier_products.len();
        let mut kept: Vec<SupplierProduct> = Vec::new();
        let mut i: usize = 0;
        while i < n
            invariant
                i <= n,
                n == self.supplier_products@.len(),
                self.wf(),
                kept@ == self.supplier_products@.take(i as int).filter(sp_id_not(id@)),
            decreases n - i,
        {
            let row = &self.supplier_products[i];
            assert(supplier_product_row_wf()(self.supplier_products@[i as int]));
            proof {
                lemma_filter_take_step(self.supplier_products@, sp_id_not(id@), i as int);
            }
            if !str_eq(row.id.as_ref().unwrap().as_str(), id.as_str()) {
                kept.push(row.clone());
            }
            i = i + 1;
        }
        proof {
            lemma_take_full(self.supplier_products@);
            lemma_filter_all_rows(
                self.supplier_products@,
                sp_id_not(id@),
                supplier_product_row_wf(),
            );
            lemma_filter_unique_by(
                self.supplier_products@,
                sp_id_not(id@),
                supplier_product_id_key(),
            );
            lemma_filter_sorted(self.supplier_products@, sp_id_not(id@), supplier_product_leq());
        }
        self.supplier_products = kept;
        Ok(())
    }

    /// Lists the active suppliers, newest first.
    pub fn get_suppliers(&self) -> (r: Vec<Supplier>)
        requires
            self.wf(),
        ensures
            r@ == self.suppliers@.filter(supplier_active()),
            sorted_by(r@, supplier_leq()),
    {
        let n = self.suppliers.len();
        let mut out: Vec<Supplier> = Vec::new();
        let mut i: usize = 0;
        while i < n
            invariant
                i <= n,
                n == self.suppliers@.len(),
                self.wf(),
                out@ == self.suppliers@.take(i as int).filter(supplier_active()),
            decreases n - i,
        {
            let row = &self.suppliers[i];
            assert(supplier_row_wf()(self.suppliers@[i as int]));
            proof {
                lemma_filter_take_step(self.suppliers@, supplier_active(), i as int);
            }
            if row.is_active.unwrap() == 1 {
                out.push(row.clone());
            }
            i = i + 1;
        }
        proof {
            lemma_take_full(self.suppliers@);
            lemma_filter_sorted(self.suppliers@, supplier_active(), supplier_leq());
        }
        out
    }

    /// Inserts a supplier row with the next auto-increment identifier and
    /// the given timestamp.  A full identifier space is a storage error.
    pub fn create_supplier_row(&mut self, supplier: Supplier, created_at: String) -> (r: Result<
        Supplier,
        CmdError,
    >)
        requires
            old(self).wf(),
        ensures
            final(self).wf(),
            final(self).users == old(self).users,
            final(self).clients == old(self).clients,
            final(self).next_client_id == old(self).next_client_id,
            final(self).products == old(self).products,
            final(self).categories == old(self).categories,
            final(self).subcategories == old(self).subcategories,
            final(self).invoices == old(self).invoices,
            final(self).invoice_items == old(self).invoice_items,
            final(self).deliveries == old(self).deliveries,
            final(self).delivery_items == old(self).delivery_items,
            final(self).warehouse_groups == old(self).warehouse_groups,
            final(self).warehouse_items == old(self).warehouse_items,
            final(self).supplier_sectors == old(self).supplier_sectors,
            final(self).supplier_products == old(self).supplier_products,
            final(self).countries == old(self).countries,
            match r {
                Ok(row) => {
                    &&& old(self).next_supplier_id < i64::MAX
                    &&& row == (Supplier {
                        id: Some(old(self).next_supplier_id),
                        created_at: Some(created_at),
                        ..supplier
                    })
                    &&& exists|stored: Supplier|
                        stored_supplier(supplier, old(self).next_supplier_id, stored, created_at@)
                            && final(self).suppliers@ == old(self).suppliers@.insert(
                            first_not(old(self).suppliers@, supplier_created_ge(created_at@)),
                            stored,
                        )
                    &&& final(self).next_supplier_id == old(self).next_supplier_id + 1
                },
                Err(e) => {
                    &&& *final(self) == *old(self)
                    &&& old(self).next_supplier_id == i64::MAX
                    &&& e matches CmdError::StorageError(m) && m@ == "database or disk is full"@
                },
            },
    {
        if self.next_supplier_id == i64::MAX {
            return Err(CmdError::StorageError(String::from_str("database or disk is full")));
        }
        let n = self.suppliers.len();
        let mut k: usize = 0;
        while k < n
            invariant
                k <= n,
                n == self.suppliers@.len(),
                self.wf(),
                forall|j: int|
                    0 <= j < k ==> seq_str_le(
                        created_at@,
                        opt_str_view((#[trigger] self.suppliers@[j]).created_at),
                    ),
            ensures
                k <= n,
                n == self.suppliers@.len(),
                forall|j: int|
                    0 <= j < k ==> seq_str_le(
                        created_at@,
                        opt_str_view((#[trigger] self.suppliers@[j]).created_at),
                    ),
                k < n ==> !seq_str_le(
                    created_at@,
                    opt_str_view(self.suppliers@[k as int].created_at),
                ),
            decreases n - k,
        {
            let row = &self.suppliers[k];
            assert(supplier_row_wf()(self.suppliers@[k as int]));
            if !str_le(created_at.as_str(), row.created_at.as_ref().unwrap().as_str()) {
                break;
            }
            k = k + 1;
        }
        let id = self.next_supplier_id;
        let s2 = supplier.clone();
        let stored = Supplier {
            id: Some(id),
            is_active: Some(s2.is_active.unwrap_or(1)),
            created_at: Some(created_at.clone()),
            ..s2
        };
        proof {
            lemma_first_not_from_props(
                self.suppliers@,
                supplier_created_ge(created_at@),
                k as int,
            );
            lemma_sorted_insert_desc(self.suppliers@, supplier_created_key(), stored, k as int);
            assert forall|i: int| 0 <= i < self.suppliers@.len() implies supplier_id_key()(
                #[trigger] self.suppliers@[i],
            ) != supplier_id_key()(stored) by {
                assert(supplier_id_below(self.next_supplier_id)(self.suppliers@[i]));
            }
            lemma_unique_insert(self.suppliers@, supplier_id_key(), stored, k as int);
            lemma_all_rows_insert(self.suppliers@, supplier_row_wf(), stored, k as int);
            assert(stored_supplier(supplier, id, stored, created_at@));
        }
        let ghost gstored = stored;
        self.suppliers.insert(k, stored);
        self.next_supplier_id = id + 1;
        proof {
            let t = self.suppliers@;
            assert forall|i: int| 0 <= i < t.len() implies supplier_id_below(self.next_supplier_id)(
                #[trigger] t[i],
            ) by {
                if i < k as int {
                    assert(supplier_id_below(id)(old(self).suppliers@[i]));
                    assert(t[i] == old(self).suppliers@[i]);
                } else if i == k as int {
                    assert(t[i] == gstored);
                } else {
                    assert(supplier_id_below(id)(old(self).suppliers@[i - 1]));
                    assert(t[i] == old(self).suppliers@[i - 1]);
                }
            }
            assert(stored_supplier(supplier, id, gstored, created_at@) && self.suppliers@ == old(
                self,
            ).suppliers@.insert(
                first_not(old(self).suppliers@, supplier_created_ge(created_at@)),
                gstored,
            ));
        }
        Ok(Supplier { id: Some(id), created_at: Some(created_at), ..supplier })
    }

    /// Creates a supplier, stamped with the current time.
    pub fn create_supplier(&mut self, supplier: Supplier) -> (r: Result<Supplier, CmdError>)
        requires
            old(self).wf(),
        ensures
            final(self).wf(),
            final(self).users == old(self).users,
            final(self).clients == old(self).clients,
            final(self).next_client_id == old(self).next_client_id,
            final(self).products == old(self).products,
            final(self).categories == old(self).categories,
            final(self).subcategories == old(self).subcategories,
            final(self).invoices == old(self).invoices,
            final(self).invoice_items == old(self).invoice_items,
            final(self).deliveries == old(self).deliveries,
            final(self).delivery_items == old(self).delivery_items,
            final(self).warehouse_groups == old(self).warehouse_groups,
            final(self).warehouse_items == old(self).warehouse_items,
            final(self).supplier_sectors == old(self).supplier_sectors,
            final(self).supplier_products == old(self).supplier_products,
            final(self).countries == old(self).countries,
            match r {
                Ok(row) => {
                    &&& row == (Supplier {
                        id: Some(old(self).next_supplier_id),
                        created_at: row.created_at,
                        ..supplier
                    })
                    &&& row.created_at is Some
                    &&& final(self).next_supplier_id == old(self).next_supplier_id + 1
                    &&& exists|stored: Supplier|
                        stored_supplier(
                            supplier,
                            old(self).next_supplier_id,
                            stored,
                            opt_str_view(row.created_at),
                        ) && final(self).suppliers@ == old(self).suppliers@.insert(
                            first_not(
                                old(self).suppliers@,
                                supplier_created_ge(opt_str_view(row.created_at)),
                            ),
                            stored,
                        )
                },
                Err(e) => {
                    &&& *final(self) == *old(self)
                    &&& old(self).next_supplier_id == i64::MAX
                },
            },
    {
        let created_at = now_rfc3339();
        let ghost gs = supplier;
        let ghost gts = created_at@;
        let r = self.create_supplier_row(supplier, created_at);
        proof {
            if r is Ok {
                let row = r->Ok_0;
                let stored = choose|st: Supplier|
                    stored_supplier(gs, old(self).next_supplier_id, st, gts) && self.suppliers@
                        == old(self).suppliers@.insert(
                        first_not(old(self).suppliers@, supplier_created_ge(gts)),
                        st,
                    );
                assert(stored_supplier(
                    gs,
                    old(self).next_supplier_id,
                    stored,
                    opt_str_view(row.created_at),
                ));
            }
        }
        r
    }

    /// Updates the supplier carrying the record's identifier; a missing row
    /// is a no-op.  The stored row keeps its creation time and its active
    /// flag; the record is handed back unchanged.
    pub fn update_supplier(&mut self, supplier: Supplier) -> (r: Result<Supplier, CmdError>)
        requires
            old(self).wf(),
        ensures
            final(self).wf(),
            final(self).users == old(self).users,
            final(self).clients == old(self).clients,
            final(self).next_client_id == old(self).next_client_id,
            final(self).products == old(self).products,
            final(self).categories == old(self).categories,
            final(self).subcategories == old(self).subcategories,
            final(self).invoices == old(self).invoices,
            final(self).invoice_items == old(self).invoice_items,
            final(self).deliveries == old(self).deliveries,
            final(self).delivery_items == old(self).delivery_items,
            final(self).warehouse_groups == old(self).warehouse_groups,
            final(self).warehouse_items == old(self).warehouse_items,
            final(self).next_supplier_id == old(self).next_supplier_id,
            final(self).supplier_sectors == old(self).supplier_sectors,
            final(self).supplier_products == old(self).supplier_products,
            final(self).countries == old(self).countries,
            match r {
                Ok(row) => {
                    &&& supplier.id is Some
                    &&& row == supplier
                    &&& ({
                        let idx = first_where(old(self).suppliers@, supplier_id_is(supplier.id->0));
                        if idx < old(self).suppliers@.len() {
                            final(self).suppliers@ == old(self).suppliers@.update(
                                idx,
                                (Supplier {
                                    id: Some(supplier.id->0),
                                    is_active: old(self).suppliers@[idx].is_active,
                                    created_at: old(self).suppliers@[idx].created_at,
                                    ..supplier
                                }),
                            )
                        } else {
                            final(self).suppliers@ == old(self).suppliers@
                        }
                    })
                },
                Err(e) => {
                    &&& *final(self) == *old(self)
                    &&& supplier.id is None
                    &&& e == CmdError::MissingIdentifier
                },
            },
    {
        let id = match &supplier.id {
            Some(v) => *v,
            None => {
                return Err(CmdError::MissingIdentifier);
            },
        };
        let n = self.suppliers.len();
        let mut i: usize = 0;
        while i < n
            invariant
                i <= n,
                n == self.suppliers@.len(),
                self.wf(),
                forall|j: int| 0 <= j < i ==> (#[trigger] self.suppliers@[j]).id->0 != id,
            ensures
                i <= n,
                n == self.suppliers@.len(),
                forall|j: int| 0 <= j < i ==> (#[trigger] self.suppliers@[j]).id->0 != id,
                i < n ==> self.suppliers@[i as int].id->0 == id,
            decreases n - i,
        {
            let row = &self.suppliers[i];
            assert(supplier_row_wf()(self.suppliers@[i as int]));
            if row.id.unwrap() == id {
                break;
            }
            i = i + 1;
        }
        proof {
            lemma_first_where_from_props(self.suppliers@, supplier_id_is(id), i as int);
        }
        if i == n {
            return Ok(supplier);
        }
        let s2 = supplier.clone();
        let old_row = self.suppliers.remove(i);
        let stored = Supplier {
            id: Some(id),
            is_active: old_row.is_active,
            created_at: old_row.created_at,
            ..s2
        };
        proof {
            let s = old(self).suppliers@;
            assert(s.remove(i as int).insert(i as int, stored) =~= s.update(i as int, stored));
            lemma_sorted_update(s, supplier_leq(), stored, i as int);
            assert forall|j: int| 0 <= j < s.len() && j != i implies supplier_id_key()(
                #[trigger] s[j],
            ) != supplier_id_key()(stored) by {
                if j < i {
                    assert(s[j].id->0 != id);
                } else {
                    assert(supplier_id_key()(s[i as int]) != supplier_id_key()(s[j]));
                }
            }
            lemma_unique_update_fresh(s, supplier_id_key(), stored, i as int);
            lemma_all_rows_update(s, supplier_row_wf(), stored, i as int);
            lemma_all_rows_update(s, supplier_id_below(self.next_supplier_id), stored, i as int);
        }
        self.suppliers.insert(i, stored);
        Ok(supplier)
    }

    /// Soft-deletes a supplier: clears its active flag but keeps the row.
    pub fn delete_supplier(&mut self, id: i64) -> (r: Result<(), CmdError>)
        requires
            old(self).wf(),
        ensures
            final(self).wf(),
            r is Ok,
            final(self).users == old(self).users,
            final(self).clients == old(self).clients,
            final(self).next_client_id == old(self).next_client_id,
            final(self).products == old(self).products,
            final(self).categories == old(self).categories,
            final(self).subcategories == old(self).subcategories,
            final(self).invoices == old(self).invoices,
            final(self).invoice_items == old(self).invoice_items,
            final(self).deliveries == old(self).deliveries,
            final(self).delivery_items == old(self).delivery_items,
            final(self).warehouse_groups == old(self).warehouse_groups,
            final(self).warehouse_items == old(self).warehouse_items,
            final(self).next_supplier_id == old(self).next_supplier_id,
            final(self).supplier_sectors == old(self).supplier_sectors,
            final(self).supplier_products == old(self).supplier_products,
            final(self).countries == old(self).countries,
            ({
                let idx = first_where(old(self).suppliers@, supplier_id_is(id));
                if idx < old(self).suppliers@.len() {
                    final(self).suppliers@ == old(self).suppliers@.update(
                        idx,
                        (Supplier { is_active: Some(0), ..old(self).suppliers@[idx] }),
                    )
                } else {
                    final(self).suppliers@ == old(self).suppliers@
                }
            }),
    {
        let n = self.suppliers.len();
        let mut i: usize = 0;
        while i < n
            invariant
                i <= n,
                n == self.suppliers@.len(),
                self.wf(),
                forall|j: int| 0 <= j < i ==> (#[trigger] self.suppliers@[j]).id->0 != id,
            ensures
                i <= n,
                n == self.suppliers@.len(),
                forall|j: int| 0 <= j < i ==> (#[trigger] self.suppliers@[j]).id->0 != id,
                i < n ==> self.suppliers@[i as int].id->0 == id,
            decreases n - i,
        {
            let row = &self.suppliers[i];
            assert(supplier_row_wf()(self.suppliers@[i as int]));
            if row.id.unwrap() == id {
                break;
            }
            i = i + 1;
        }
        proof {
            lemma_first_where_from_props(self.suppliers@, supplier_id_is(id), i as int);
        }
        if i == n {
            return Ok(());
        }
        let old_row = self.suppliers.remove(i);
        let stored = Supplier { is_active: Some(0), ..old_row };
        proof {
            let s = old(self).suppliers@;
            assert(s.remove(i as int).insert(i as int, stored) =~= s.update(i as int, stored));
            lemma_sorted_update(s, supplier_leq(), stored, i as int);
            assert forall|j: int| 0 <= j < s.len() && j != i implies supplier_id_key()(
                #[trigger] s[j],
            ) != supplier_id_key()(stored) by {
                if j < i {
                    assert(s[j].id->0 != id);
                } else {
                    assert(supplier_id_key()(s[i as int]) != supplier_id_key()(s[j]));
                }
            }
            lemma_unique_update_fresh(s, supplier_id_key(), stored, i as int);
            lemma_all_rows_update(s, supplier_row_wf(), stored, i as int);
            lemma_all_rows_update(s, supplier_id_below(self.next_supplier_id), stored, i as int);
        }
        self.suppliers.insert(i, stored);
        Ok(())
    }
}

} // verus!
