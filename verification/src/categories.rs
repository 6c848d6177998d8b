//! Category and subcategory commands.
//!
//! Categories have a unique name and list in ascending name order; deleting a
//! category cascades to its subcategories at the application level.

use vstd::prelude::*;

use crate::domain::Category;
use crate::domain::Subcategory;
use crate::error::CmdError;
use crate::ids::fresh_id;
use crate::ids::now_rfc3339;
use crate::seqs::lemma_all_rows_insert;
use crate::seqs::lemma_filter_all_rows;
use crate::seqs::lemma_filter_sorted;
use crate::seqs::lemma_filter_take_step;
use crate::seqs::lemma_filter_unique_by;
use crate::seqs::lemma_take_full;
use crate::seqs::lemma_unique_insert;
use crate::seqs::sorted_by;
use crate::store::category_id_key;
use crate::store::category_leq;
use crate::store::category_name_key;
use crate::store::category_row_wf;
use crate::store::first_not;
use crate::store::lemma_first_not_from_props;
use crate::store::lemma_sorted_insert_asc;
use crate::store::opt_str_view;
use crate::store::subcategory_id_key;
use crate::store::subcategory_name_key;
use crate::store::subcategory_leq;
use crate::store::subcategory_row_wf;
use crate::store::Store;
use crate::strcmp::seq_str_le;
use crate::strcmp::str_eq;
use crate::strcmp::str_le;

verus! {

/// A category row whose name is at most `n`, in lexicographic order.
pub open spec fn cat_name_le(n: Seq<char>) -> spec_fn(Category) -> bool {
    |c: Category| seq_str_le(c.name@, n)
}

/// A category row whose identifier differs from `id`.
pub open spec fn cat_id_not(id: Seq<char>) -> spec_fn(Category) -> bool {
    |c: Category| opt_str_view(c.id) != id
}

/// A subcategory row that belongs to category `cat`.
pub open spec fn subcat_in(cat: Seq<char>) -> spec_fn(Subcategory) -> bool {
    |s: Subcategory| s.category_id@ == cat
}

/// A subcategory row that does not belong to category `cat`.
pub open spec fn subcat_not_in(cat: Seq<char>) -> spec_fn(Subcategory) -> bool {
    |s: Subcategory| s.category_id@ != cat
}

/// A subcategory row whose identifier differs from `id`.
pub open spec fn subcat_id_not(id: Seq<char>) -> spec_fn(Subcategory) -> bool {
    |s: Subcategory| opt_str_view(s.id) != id
}

/// A subcategory row whose name is at most `n`.
pub open spec fn subcat_name_le(n: Seq<char>) -> spec_fn(Subcategory) -> bool {
    |s: Subcategory| seq_str_le(s.name@, n)
}

impl Store {
    /// Lists every category, in ascending name order.
    pub fn get_categories(&self) -> (r: Vec<Category>)
        requires
            self.wf(),
        ensures
            r@ == self.categories@,
            sorted_by(r@, category_leq()),
    {
        let n = self.categories.len();
        let mut out: Vec<Category> = Vec::new();
        let mut i: usize = 0;
        while i < n
            invariant
                i <= n,
                n == self.categories@.len(),
                out@ == self.categories@.take(i as int),
            decreases n - i,
        {
            out.push(self.categories[i].clone());
            proof {
                assert(self.categories@.take(i + 1) =~= self.categories@.take(i as int).push(
                    self.categories@[i as int],
                ));
            }
            i = i + 1;
        }
        proof {
            lemma_take_full(self.categories@);
        }
        out
    }

    /// Inserts a category row with the given identifier, name and timestamp.
    ///
    /// Mirrors the engine's unique checks: a duplicate identifier or name is
    /// rejected with a storage error and leaves the store unchanged.
    pub fn create_category_row(&mut self, id: String, name: String, created_at: String) -> (r:
        Result<Category, CmdError>)
        requires
            old(self).wf(),
        ensures
            final(self).wf(),
            final(self).users == old(self).users,
            final(self).clients == old(self).clients,
            final(self).next_client_id == old(self).next_client_id,
            final(self).products == old(self).products,
            final(self).subcategories == old(self).subcategories,
            final(self).invoices == old(self).invoices,
            final(self).invoice_items == old(self).invoice_items,
            final(self).deliveries == old(self).deliveries,
            final(self).delivery_items == old(self).delivery_items,
            final(self).warehouse_groups == old(self).warehouse_groups,
            final(self).warehouse_items == old(self).warehouse_items,
            final(self).suppliers == old(self).suppliers,
            final(self).next_supplier_id == old(self).next_supplier_id,
            final(self).supplier_sectors == old(self).supplier_sectors,
            final(self).supplier_products == old(self).supplier_products,
            final(self).countries == old(self).countries,
            match r {
                Ok(row) => {
                    &&& forall|i: int|
                        0 <= i < old(self).categories@.len() ==> opt_str_view(
                            (#[trigger] old(self).categories@[i]).id,
                        ) != id@
                    &&& forall|i: int|
                        0 <= i < old(self).categories@.len() ==> (#[trigger] old(
                            self,
                        ).categories@[i]).name@ != name@
                    &&& row == (Category { id: Some(id), name: name, created_at: Some(created_at) })
                    &&& 0 <= first_not(old(self).categories@, cat_name_le(name@))
                        <= old(self).categories@.len()
                    &&& final(self).categories@.len() == old(self).categories@.len() + 1
                    &&& final(self).categories@ == old(self).categories@.insert(
                        first_not(old(self).categories@, cat_name_le(name@)),
                        row,
                    )
                },
                Err(e) => {
                    let has_id = exists|i: int|
                        0 <= i < old(self).categories@.len() && opt_str_view(
                            (#[trigger] old(self).categories@[i]).id,
                        ) == id@;
                    let has_name = exists|i: int|
                        0 <= i < old(self).categories@.len() && (#[trigger] old(
                            self,
                        ).categories@[i]).name@ == name@;
                    &&& *final(self) == *old(self)
                    &&& (has_id || has_name)
                    &&& e matches CmdError::StorageError(m) && m@ == (if has_id {
                        "UNIQUE constraint failed: categories.id"@
                    } else {
                        "UNIQUE constraint failed: categories.name"@
                    })
                },
            },
    {
        let n = self.categories.len();
        let mut i: usize = 0;
        while i < n
            invariant
                i <= n,
                n == self.categories@.len(),
                self.wf(),
                forall|j: int|
                    0 <= j < i ==> opt_str_view((#[trigger] self.categories@[j]).id) != id@,
            decreases n - i,
        {
            let row = &self.categories[i];
            assert(category_row_wf()(self.categories@[i as int]));
            if str_eq(row.id.as_ref().unwrap().as_str(), id.as_str()) {
                return Err(
                    CmdError::StorageError(
                        String::from_str("UNIQUE constraint failed: categories.id"),
                    ),
                );
            }
            i = i + 1;
        }
        let mut i: usize = 0;
        while i < n
            invariant
                i <= n,
                n == self.categories@.len(),
                self.wf(),
                forall|j: int| 0 <= j < i ==> (#[trigger] self.categories@[j]).name@ != name@,
                forall|j: int|
                    0 <= j < n ==> opt_str_view((#[trigger] self.categories@[j]).id) != id@,
            decreases n - i,
        {
            let row = &self.categories[i];
            if str_eq(row.name.as_str(), name.as_str()) {
                return Err(
                    CmdError::StorageError(
                        String::from_str("UNIQUE constraint failed: categories.name"),
                    ),
                );
            }
            i = i + 1;
        }
        let mut k: usize = 0;
        while k < n
            invariant
                k <= n,
                n == self.categories@.len(),
                self.wf(),
                forall|j: int| 0 <= j < k ==> seq_str_le((#[trigger] self.categories@[j]).name@, name@),
            ensures
                k <= n,
                n == self.categories@.len(),
                forall|j: int| 0 <= j < k ==> seq_str_le((#[trigger] self.categories@[j]).name@, name@),
                k < n ==> !seq_str_le(self.categories@[k as int].name@, name@),
            decreases n - k,
        {
            if !str_le(self.categories[k].name.as_str(), name.as_str()) {
                break;
            }
            k = k + 1;
        }
        let row = Category { id: Some(id), name: name, created_at: Some(created_at) };
        let stored = row.clone();
        proof {
            lemma_first_not_from_props(self.categories@, cat_name_le(row.name@), k as int);
            lemma_sorted_insert_asc(self.categories@, category_name_key(), stored, k as int);
            lemma_unique_insert(self.categories@, category_id_key(), stored, k as int);
            lemma_unique_insert(self.categories@, category_name_key(), stored, k as int);
            lemma_all_rows_insert(self.categories@, category_row_wf(), stored, k as int);
        }
        self.categories.insert(k, stored);
        Ok(row)
    }

    /// Creates a category with a fresh identifier and the current time.
    pub fn create_category(&mut self, category: Category) -> (r: Result<Category, CmdError>)
        requires
            old(self).wf(),
        ensures
            final(self).wf(),
            final(self).users == old(self).users,
            final(self).clients == old(self).clients,
            final(self).next_client_id == old(self).next_client_id,
            final(self).products == old(self).products,
            final(self).subcategories == old(self).subcategories,
            final(self).invoices == old(self).invoices,
            final(self).invoice_items == old(self).invoice_items,
            final(self).deliveries == old(self).deliveries,
            final(self).delivery_items == old(self).delivery_items,
            final(self).warehouse_groups == old(self).warehouse_groups,
            final(self).warehouse_items == old(self).warehouse_items,
            final(self).suppliers == old(self).suppliers,
            final(self).next_supplier_id == old(self).next_supplier_id,
            final(self).supplier_sectors == old(self).supplier_sectors,
            final(self).supplier_products == old(self).supplier_products,
            final(self).countries == old(self).countries,
            match r {
                Ok(row) => {
                    &&& forall|i: int|
                        0 <= i < old(self).categories@.len() ==> (#[trigger] old(
                            self,
                        ).categories@[i]).name@ != category.name@
                    &&& row.name@ == category.name@
                    &&& row.id is Some
                    &&& row.created_at is Some
                    &&& final(self).categories@ == old(self).categories@.insert(
                        first_not(old(self).categories@, cat_name_le(category.name@)),
                        row,
                    )
                },
                Err(e) => {
                    &&& *final(self) == *old(self)
                    &&& e matches CmdError::StorageError(m)
                },
            },
            (exists|i: int|
                0 <= i < old(self).categories@.len() && (#[trigger] old(self).categories@[i]).name@
                    == category.name@) ==> r is Err,
    {
        let id = fresh_id();
        let created_at = now_rfc3339();
        self.create_category_row(id, category.name, created_at)
    }

    /// Deletes a category and, first, every subcategory that references it.
    pub fn delete_category(&mut self, id: String) -> (r: Result<(), CmdError>)
        requires
            old(self).wf(),
        ensures
            final(self).wf(),
            r is Ok,
            final(self).users == old(self).users,
            final(self).clients == old(self).clients,
            final(self).next_client_id == old(self).next_client_id,
            final(self).products == old(self).products,
            final(self).invoices == old(self).invoices,
            final(self).invoice_items == old(self).invoice_items,
            final(self).deliveries == old(self).deliveries,
            final(self).delivery_items == old(self).delivery_items,
            final(self).warehouse_groups == old(self).warehouse_groups,
            final(self).warehouse_items == old(self).warehouse_items,
            final(self).suppliers == old(self).suppliers,
            final(self).next_supplier_id == old(self).next_supplier_id,
            final(self).supplier_sectors == old(self).supplier_sectors,
            final(self).supplier_products == old(self).supplier_products,
            final(self).countries == old(self).countries,
            final(self).subcategories@ == old(self).subcategories@.filter(subcat_not_in(id@)),
            final(self).categories@ == old(self).categories@.filter(cat_id_not(id@)),
    {
        let n = self.subcategories.len();
        let mut kept: Vec<Subcategory> = Vec::new();
        let mut i: usize = 0;
        while i < n
            invariant
                i <= n,
                n == self.subcategories@.len(),
                self.wf(),
                kept@ == self.subcategories@.take(i as int).filter(subcat_not_in(id@)),
            decreases n - i,
        {
            let row = &self.subcategories[i];
            proof {
                lemma_filter_take_step(self.subcategories@, subcat_not_in(id@), i as int);
            }
            if !str_eq(row.category_id.as_str(), id.as_str()) {
                kept.push(row.clone());
            }
            i = i + 1;
        }
        proof {
            lemma_take_full(self.subcategories@);
            lemma_filter_all_rows(self.subcategories@, subcat_not_in(id@), subcategory_row_wf());
            lemma_filter_unique_by(self.subcategories@, subcat_not_in(id@), subcategory_id_key());
            lemma_filter_sorted(self.subcategories@, subcat_not_in(id@), subcategory_leq());
        }
        self.subcategories = kept;

        let n = self.categories.len();
        let mut kept: Vec<Category> = Vec::new();
        let mut i: usize = 0;
        while i < n
            invariant
                i <= n,
                n == self.categories@.len(),
                self.wf(),
                kept@ == self.categories@.take(i as int).filter(cat_id_not(id@)),
            decreases n - i,
        {
            let row = &self.categories[i];
            assert(category_row_wf()(self.categories@[i as int]));
            proof {
                lemma_filter_take_step(self.categories@, cat_id_not(id@), i as int);
            }
            if !str_eq(row.id.as_ref().unwrap().as_str(), id.as_str()) {
                kept.push(row.clone());
            }
            i = i + 1;
        }
        proof {
            lemma_take_full(self.categories@);
            lemma_filter_all_rows(self.categories@, cat_id_not(id@), category_row_wf());
            lemma_filter_unique_by(self.categories@, cat_id_not(id@), category_id_key());
            lemma_filter_unique_by(self.categories@, cat_id_not(id@), category_name_key());
            lemma_filter_sorted(self.categories@, cat_id_not(id@), category_leq());
        }
        self.categories = kept;
        Ok(())
    }

    /// Lists every subcategory, in ascending name order.
    pub fn get_subcategories(&self) -> (r: Vec<Subcategory>)
        requires
            self.wf(),
        ensures
            r@ == self.subcategories@,
            sorted_by(r@, subcategory_leq()),
    {
        let n = self.subcategories.len();
        let mut out: Vec<Subcategory> = Vec::new();
        let mut i: usize = 0;
        while i < n
            invariant
                i <= n,
                n == self.subcategories@.len(),
                out@ == self.subcategories@.take(i as int),
            decreases n - i,
        {
            out.push(self.subcategories[i].clone());
            proof {
                assert(self.subcategories@.take(i + 1) =~= self.subcategories@.take(i as int).push(
                    self.subcategories@[i as int],
                ));
            }
            i = i + 1;
        }
        proof {
            lemma_take_full(self.subcategories@);
        }
        out
    }

    /// Lists the subcategories of one category, in ascending name order.
    pub fn get_subcategories_by_category(&self, category_id: String) -> (r: Vec<Subcategory>)
        requires
            self.wf(),
        ensures
            r@ == self.subcategories@.filter(subcat_in(category_id@)),
            sorted_by(r@, subcategory_leq()),
    {
        let n = self.subcategories.len();
        let mut out: Vec<Subcategory> = Vec::new();
        let mut i: usize = 0;
        while i < n
            invariant
                i <= n,
                n == self.subcategories@.len(),
                self.wf(),
                out@ == self.subcategories@.take(i as int).filter(subcat_in(category_id@)),
            decreases n - i,
        {
            let row = &self.subcategories[i];
            proof {
                lemma_filter_take_step(self.subcategories@, subcat_in(category_id@), i as int);
            }
            if str_eq(row.category_id.as_str(), category_id.as_str()) {
                out.push(row.clone());
            }
            i = i + 1;
        }
        proof {
            lemma_take_full(self.subcategories@);
            lemma_filter_sorted(self.subcategories@, subcat_in(category_id@), subcategory_leq());
        }
        out
    }

    /// Inserts a subcategory row with the given identifier and timestamp.
    pub fn create_subcategory_row(
        &mut self,
        id: String,
        name: String,
        category_id: String,
        created_at: String,
    ) -> (r: Result<Subcategory, CmdError>)
        requires
            old(self).wf(),
        ensures
            final(self).wf(),
            final(self).users == old(self).users,
            final(self).clients == old(self).clients,
            final(self).next_client_id == old(self).next_client_id,
            final(self).products == old(self).products,
            final(self).categories == old(self).categories,
            final(self).invoices == old(self).invoices,
            final(self).invoice_items == old(self).invoice_items,
            final(self).deliveries == old(self).deliveries,
            final(self).delivery_items == old(self).delivery_items,
            final(self).warehouse_groups == old(self).warehouse_groups,
            final(self).warehouse_items == old(self).warehouse_items,
            final(self).suppliers == old(self).suppliers,
            final(self).next_supplier_id == old(self).next_supplier_id,
            final(self).supplier_sectors == old(self).supplier_sectors,
            final(self).supplier_products == old(self).supplier_products,
            final(self).countries == old(self).countries,
            match r {
                Ok(row) => {
                    &&& forall|i: int|
                        0 <= i < old(self).subcategories@.len() ==> opt_str_view(
                            (#[trigger] old(self).subcategories@[i]).id,
                        ) != id@
                    &&& row == (Subcategory {
                        id: Some(id),
                        name: name,
                        category_id: category_id,
                        created_at: Some(created_at),
                    })
                    &&& final(self).subcategories@ == old(self).subcategories@.insert(
                        first_not(old(self).subcategories@, subcat_name_le(name@)),
                        row,
                    )
                },
                Err(e) => {
                    &&& *final(self) == *old(self)
                    &&& (exists|i: int|
                        0 <= i < old(self).subcategories@.len() && opt_str_view(
                            (#[trigger] old(self).subcategories@[i]).id,
                        ) == id@)
                    &&& e matches CmdError::StorageError(m) && m@
                        == "UNIQUE constraint failed: subcategories.id"@
                },
            },
    {
        let n = self.subcategories.len();
        let mut i: usize = 0;
        while i < n
            invariant
                i <= n,
                n == self.subcategories@.len(),
                self.wf(),
                forall|j: int|
                    0 <= j < i ==> opt_str_view((#[trigger] self.subcategories@[j]).id) != id@,
            decreases n - i,
        {
            let row = &self.subcategories[i];
            assert(subcategory_row_wf()(self.subcategories@[i as int]));
            if str_eq(row.id.as_ref().unwrap().as_str(), id.as_str()) {
                return Err(
                    CmdError::StorageError(
                        String::from_str("UNIQUE constraint failed: subcategories.id"),
                    ),
                );
            }
            i = i + 1;
        }
        let mut k: usize = 0;
        while k < n
            invariant
                k <= n,
                n == self.subcategories@.len(),
                self.wf(),
                forall|j: int|
                    0 <= j < k ==> seq_str_le((#[trigger] self.subcategories@[j]).name@, name@),
            ensures
                k <= n,
                n == self.subcategories@.len(),
                forall|j: int|
                    0 <= j < k ==> seq_str_le((#[trigger] self.subcategories@[j]).name@, name@),
                k < n ==> !seq_str_le(self.subcategories@[k as int].name@, name@),
            decreases n - k,
        {
            if !str_le(self.subcategories[k].name.as_str(), name.as_str()) {
                break;
            }
            k = k + 1;
        }
        let row = Subcategory {
            id: Some(id),
            name: name,
            category_id: category_id,
            created_at: Some(created_at),
        };
        let stored = row.clone();
        proof {
            lemma_first_not_from_props(self.subcategories@, subcat_name_le(row.name@), k as int);
            lemma_sorted_insert_asc(self.subcategories@, subcategory_name_key(), stored, k as int);
            lemma_unique_insert(self.subcategories@, subcategory_id_key(), stored, k as int);
            lemma_all_rows_insert(self.subcategories@, subcategory_row_wf(), stored, k as int);
        }
        self.subcategories.insert(k, stored);
        Ok(row)
    }

    /// Creates a subcategory with a fresh identifier and the current time.
    pub fn create_subcategory(&mut self, subcategory: Subcategory) -> (r: Result<
        Subcategory,
        CmdError,
    >)
        requires
            old(self).wf(),
        ensures
            final(self).wf(),
            final(self).users == old(self).users,
            final(self).clients == old(self).clients,
            final(self).next_client_id == old(self).next_client_id,
            final(self).products == old(self).products,
            final(self).categories == old(self).categories,
            final(self).invoices == old(self).invoices,
            final(self).invoice_items == old(self).invoice_items,
            final(self).deliveries == old(self).deliveries,
            final(self).delivery_items == old(self).delivery_items,
            final(self).warehouse_groups == old(self).warehouse_groups,
            final(self).warehouse_items == old(self).warehouse_items,
            final(self).suppliers == old(self).suppliers,
            final(self).next_supplier_id == old(self).next_supplier_id,
            final(self).supplier_sectors == old(self).supplier_sectors,
            final(self).supplier_products == old(self).supplier_products,
            final(self).countries == old(self).countries,
            match r {
                Ok(row) => {
                    &&& row.name@ == subcategory.name@
                    &&& row.category_id@ == subcategory.category_id@
                    &&& row.id is Some
                    &&& row.created_at is Some
                    &&& final(self).subcategories@ == old(self).subcategories@.insert(
                        first_not(old(self).subcategories@, subcat_name_le(subcategory.name@)),
                        row,
                    )
                },
                Err(e) => *final(self) == *old(self),
            },
    {
        let id = fresh_id();
        let created_at = now_rfc3339();
        self.create_subcategory_row(id, subcategory.name, subcategory.category_id, created_at)
    }

    /// Deletes one subcategory by identifier.
    pub fn delete_subcategory(&mut self, id: String) -> (r: Result<(), CmdError>)
        requires
            old(self).wf(),
        ensures
            final(self).wf(),
            r is Ok,
            final(self).users == old(self).users,
            final(self).clients == old(self).clients,
            final(self).next_client_id == old(self).next_client_id,
            final(self).products == old(self).products,
            final(self).categories == old(self).categories,
            final(self).invoices == old(self).invoices,
            final(self).invoice_items == old(self).invoice_items,
            final(self).deliveries == old(self).deliveries,
            final(self).delivery_items == old(self).delivery_items,
            final(self).warehouse_groups == old(self).warehouse_groups,
            final(self).warehouse_items == old(self).warehouse_items,
            final(self).suppliers == old(self).suppliers,
            final(self).next_supplier_id == old(self).next_supplier_id,
            final(self).supplier_sectors == old(self).supplier_sectors,
            final(self).supplier_products == old(self).supplier_products,
            final(self).countries == old(self).countries,
            final(self).subcategories@ == old(self).subcategories@.filter(subcat_id_not(id@)),
    {
        let n = self.subcategories.len();
        let mut kept: Vec<Subcategory> = Vec::new();
        let mut i: usize = 0;
        while i < n
            invariant
                i <= n,
                n == self.subcategories@.len(),
                self.wf(),
                kept@ == self.subcategories@.take(i as int).filter(subcat_id_not(id@)),
            decreases n - i,
        {
            let row = &self.subcategories[i];
            assert(subcategory_row_wf()(self.subcategories@[i as int]));
            proof {
                lemma_filter_take_step(self.subcategories@, subcat_id_not(id@), i as int);
            }
            if !str_eq(row.id.as_ref().unwrap().as_str(), id.as_str()) {
                kept.push(row.clone());
            }
            i = i + 1;
        }
        proof {
            lemma_take_full(self.subcategories@);
            lemma_filter_all_rows(self.subcategories@, subcat_id_not(id@), subcategory_row_wf());
            lemma_filter_unique_by(self.subcategories@, subcat_id_not(id@), subcategory_id_key());
            lemma_filter_sorted(self.subcategories@, subcat_id_not(id@), subcategory_leq());
        }
        self.subcategories = kept;
        Ok(())
    }
}

} // verus!
