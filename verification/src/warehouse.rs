//! Warehouse commands: groups of stocked products and their items.
//!
//! Groups list newest-first; deleting a group removes its items first.  A
//! single item is removed by its (group, product) pair.

use vstd::prelude::*;

use crate::domain::WarehouseGroup;
use crate::domain::WarehouseItem;
use crate::error::CmdError;
use crate::ids::fresh_id;
use crate::ids::now_rfc3339;
use crate::seqs::lemma_all_rows_insert;
use crate::seqs::lemma_all_rows_update;
use crate::seqs::lemma_filter_all_rows;
use crate::seqs::lemma_filter_sorted;
use crate::seqs::lemma_filter_take_step;
use crate::seqs::lemma_filter_unique_by;
use crate::seqs::lemma_sorted_update;
use crate::seqs::lemma_take_full;
use crate::seqs::lemma_unique_insert;
use crate::seqs::lemma_unique_update_fresh;
use crate::seqs::sorted_by;
use crate::store::first_not;
use crate::store::first_where;
use crate::store::lemma_first_not_from_props;
use crate::store::lemma_first_where_from_props;
use crate::store::lemma_sorted_insert_desc;
use crate::store::opt_str_view;
use crate::store::warehouse_group_created_key;
use crate::store::warehouse_group_id_key;
use crate::store::warehouse_group_leq;
use crate::store::warehouse_group_row_wf;
use crate::store::warehouse_item_id_key;
use crate::store::warehouse_item_row_wf;
use crate::store::Store;
use crate::strcmp::seq_str_le;
use crate::strcmp::str_eq;
use crate::strcmp::str_le;

verus! {

/// A group row with the given identifier.
pub open spec fn wg_id_is(id: Seq<char>) -> spec_fn(WarehouseGroup) -> bool {
    |g: WarehouseGroup| opt_str_view(g.id) == id
}

/// A group row whose identifier differs from `id`.
pub open spec fn wg_id_not(id: Seq<char>) -> spec_fn(WarehouseGroup) -> bool {
    |g: WarehouseGroup| opt_str_view(g.id) != id
}

/// A group row created no earlier than `ts`.
pub open spec fn wg_created_ge(ts: Seq<char>) -> spec_fn(WarehouseGroup) -> bool {
    |g: WarehouseGroup| seq_str_le(ts, opt_str_view(g.created_at))
}

/// A warehouse item not belonging to group `gid`.
pub open spec fn wi_not_in_group(gid: Seq<char>) -> spec_fn(WarehouseItem) -> bool {
    |w: WarehouseItem| w.group_id@ != gid
}

/// A warehouse item that is not the (group, product) pair to remove.
pub open spec fn wi_not_pair(gid: Seq<char>, pid: Seq<char>) -> spec_fn(WarehouseItem) -> bool {
    |w: WarehouseItem| !(w.group_id@ == gid && w.product_id@ == pid)
}

impl Store {
    /// Lists every warehouse group, newest first.
    pub fn get_warehouse_groups(&self) -> (r: Vec<WarehouseGroup>)
        requires
            self.wf(),
        ensures
            r@ == self.warehouse_groups@,
            sorted_by(r@, warehouse_group_leq()),
    {
        let n = self.warehouse_groups.len();
        let mut out: Vec<WarehouseGroup> = Vec::new();
        let mut i: usize = 0;
        while i < n
            invariant
                i <= n,
                n == self.warehouse_groups@.len(),
                out@ == self.warehouse_groups@.take(i as int),
            decreases n - i,
        {
            out.push(self.warehouse_groups[i].clone());
            proof {
                assert(self.warehouse_groups@.take(i + 1) =~= self.warehouse_groups@.take(
                    i as int,
                ).push(self.warehouse_groups@[i as int]));
            }
            i = i + 1;
        }
        proof {
            lemma_take_full(self.warehouse_groups@);
        }
        out
    }

    /// Inserts a warehouse-group row with the given identifier and timestamp.
    pub fn create_warehouse_group_row(&mut self, group: WarehouseGroup, id: String, created_at: String)
        -> (r: Result<String, CmdError>)
        requires
            old(self).wf(),
        ensures
            final(self).wf(),
            final(self).users == old(self).users,
            final(self).clients == old(self).clients,
            final(self).next_client_id == old(self).next_client_id,
            final(self).products == old(self).products,
            final(self).categories == old(self).categories,
            final(self).subcategories == old(self).subcategories,
            final(self).invoices == old(self).invoices,
            final(self).invoice_items == old(self).invoice_items,
            final(self).deliveries == old(self).deliveries,
            final(self).delivery_items == old(self).delivery_items,
            final(self).warehouse_items == old(self).warehouse_items,
            final(self).suppliers == old(self).suppliers,
            final(self).next_supplier_id == old(self).next_supplier_id,
            final(self).supplier_sectors == old(self).supplier_sectors,
            final(self).supplier_products == old(self).supplier_products,
            final(self).countries == old(self).countries,
            match r {
                Ok(rid) => {
                    &&& rid@ == id@
                    &&& forall|i: int|
                        0 <= i < old(self).warehouse_groups@.len() ==> opt_str_view(
                            (#[trigger] old(self).warehouse_groups@[i]).id,
                        ) != id@
                    &&& final(self).warehouse_groups@ == old(self).warehouse_groups@.insert(
                        first_not(old(self).warehouse_groups@, wg_created_ge(created_at@)),
                        (WarehouseGroup {
                            id: Some(id),
                            name: group.name,
                            description: group.description,
                            created_at: Some(created_at),
                        }),
                    )
                },
                Err(e) => {
                    &&& *final(self) == *old(self)
                    &&& (exists|i: int|
                        0 <= i < old(self).warehouse_groups@.len() && opt_str_view(
                            (#[trigger] old(self).warehouse_groups@[i]).id,
                        ) == id@)
                    &&& e matches CmdError::StorageError(m) && m@
                        == "UNIQUE constraint failed: warehouse_groups.id"@
                },
            },
    {
        let n = self.warehouse_groups.len();
        let mut i: usize = 0;
        while i < n
            invariant
                i <= n,
                n == self.warehouse_groups@.len(),
                self.wf(),
                forall|j: int|
                    0 <= j < i ==> opt_str_view((#[trigger] self.warehouse_groups@[j]).id) != id@,
            decreases n - i,
        {
            let row = &self.warehouse_groups[i];
            assert(warehouse_group_row_wf()(self.warehouse_groups@[i as int]));
            if str_eq(row.id.as_ref().unwrap().as_str(), id.as_str()) {
                return Err(
                    CmdError::StorageError(
                        String::from_str("UNIQUE constraint failed: warehouse_groups.id"),
                    ),
                );
            }
            i = i + 1;
        }
        let mut k: usize = 0;
        while k < n
            invariant
                k <= n,
                n == self.warehouse_groups@.len(),
                self.wf(),
                forall|j: int|
                    0 <= j < k ==> seq_str_le(
                        created_at@,
                        opt_str_view((#[trigger] self.warehouse_groups@[j]).created_at),
                    ),
            ensures
                k <= n,
                n == self.warehouse_groups@.len(),
                forall|j: int|
                    0 <= j < k ==> seq_str_le(
                        created_at@,
                        opt_str_view((#[trigger] self.warehouse_groups@[j]).created_at),
                    ),
                k < n ==> !seq_str_le(
                    created_at@,
                    opt_str_view(self.warehouse_groups@[k as int].created_at),
                ),
            decreases n - k,
        {
            let row = &self.warehouse_groups[k];
            assert(warehouse_group_row_wf()(self.warehouse_groups@[k as int]));
            if !str_le(created_at.as_str(), row.created_at.as_ref().unwrap().as_str()) {
                break;
            }
            k = k + 1;
        }
        let stored = WarehouseGroup {
            id: Some(id.clone()),
            name: group.name,
            description: group.description,
            created_at: Some(created_at),
        };
        proof {
            lemma_first_not_from_props(
                self.warehouse_groups@,
                wg_created_ge(stored.created_at->0@),
                k as int,
            );
            lemma_sorted_insert_desc(
                self.warehouse_groups@,
                warehouse_group_created_key(),
                stored,
                k as int,
            );
            lemma_unique_insert(self.warehouse_groups@, warehouse_group_id_key(), stored, k as int);
            lemma_all_rows_insert(
                self.warehouse_groups@,
                warehouse_group_row_wf(),
                stored,
                k as int,
            );
        }
        self.warehouse_groups.insert(k, stored);
        Ok(id)
    }

    /// Creates a warehouse group with a fresh identifier and the current
    /// time, handing back the identifier.
    pub fn create_warehouse_group(&mut self, group: WarehouseGroup) -> (r: Result<String, CmdError>)
        requires
            old(self).wf(),
        ensures
            final(self).wf(),
            final(self).users == old(self).users,
            final(self).clients == old(self).clients,
            final(self).next_client_id == old(self).next_client_id,
            final(self).products == old(self).products,
            final(self).categories == old(self).categories,
            final(self).subcategories == old(self).subcategories,
            final(self).invoices == old(self).invoices,
            final(self).invoice_items == old(self).invoice_items,
            final(self).deliveries == old(self).deliveries,
            final(self).delivery_items == old(self).delivery_items,
            final(self).warehouse_items == old(self).warehouse_items,
            final(self).suppliers == old(self).suppliers,
            final(self).next_supplier_id == old(self).next_supplier_id,
            final(self).supplier_sectors == old(self).supplier_sectors,
            final(self).supplier_products == old(self).supplier_products,
            final(self).countries == old(self).countries,
            match r {
                Ok(rid) => exists|row: WarehouseGroup, k: int|
                    {
                        &&& row.id is Some && opt_str_view(row.id) == rid@
                        &&& row.name == group.name
                        &&& row.description == group.description
                        &&& row.created_at is Some
                        &&& 0 <= k <= old(self).warehouse_groups@.len()
                        &&& final(self).warehouse_groups@ == old(self).warehouse_groups@.insert(
                            k,
                            row,
                        )
                    },
                Err(e) => *final(self) == *old(self),
            },
    {
        let id = fresh_id();
        let created_at = now_rfc3339();
        let ghost gname = group.name@;
        let ghost gts = created_at@;
        let r = self.create_warehouse_group_row(group, id, created_at);
        proof {
            if r is Ok {
                crate::store::lemma_first_not_bounds(
                    old(self).warehouse_groups@,
                    wg_created_ge(gts),
                );
            }
        }
        r
    }

    /// Renames a warehouse group and replaces its description; a missing row
    /// is a no-op.
    pub fn update_warehouse_group(&mut self, id: String, group: WarehouseGroup) -> (r: Result<
        (),
        CmdError,
    >)
        requires
            old(self).wf(),
        ensures
            final(self).wf(),
            r is Ok,
            final(self).users == old(self).users,
            final(self).clients == old(self).clients,
            final(self).next_client_id == old(self).next_client_id,
            final(self).products == old(self).products,
            final(self).categories == old(self).categories,
            final(self).subcategories == old(self).subcategories,
            final(self).invoices == old(self).invoices,
            final(self).invoice_items == old(self).invoice_items,
            final(self).deliveries == old(self).deliveries,
            final(self).delivery_items == old(self).delivery_items,
            final(self).warehouse_items == old(self).warehouse_items,
            final(self).suppliers == old(self).suppliers,
            final(self).next_supplier_id == old(self).next_supplier_id,
            final(self).supplier_sectors == old(self).supplier_sectors,
            final(self).supplier_products == old(self).supplier_products,
            final(self).countries == old(self).countries,
            ({
                let idx = first_where(old(self).warehouse_groups@, wg_id_is(id@));
                if idx < old(self).warehouse_groups@.len() {
                    final(self).warehouse_groups@ == old(self).warehouse_groups@.update(
                        idx,
                        (WarehouseGroup {
                            name: group.name,
                            description: group.description,
                            ..old(self).warehouse_groups@[idx]
                        }),
                    )
                } else {
                    final(self).warehouse_groups@ == old(self).warehouse_groups@
                }
            }),
    {
        let n = self.warehouse_groups.len();
        let mut i: usize = 0;
        while i < n
            invariant
                i <= n,
                n == self.warehouse_groups@.len(),
                self.wf(),
                forall|j: int|
                    0 <= j < i ==> opt_str_view((#[trigger] self.warehouse_groups@[j]).id) != id@,
            ensures
                i <= n,
                n == self.warehouse_groups@.len(),
                forall|j: int|
                    0 <= j < i ==> opt_str_view((#[trigger] self.warehouse_groups@[j]).id) != id@,
                i < n ==> opt_str_view(self.warehouse_groups@[i as int].id) == id@,
            decreases n - i,
        {
            let row = &self.warehouse_groups[i];
            assert(warehouse_group_row_wf()(self.warehouse_groups@[i as int]));
            if str_eq(row.id.as_ref().unwrap().as_str(), id.as_str()) {
                break;
            }
            i = i + 1;
        }
        proof {
            lemma_first_where_from_props(self.warehouse_groups@, wg_id_is(id@), i as int);
        }
        if i == n {
            return Ok(());
        }
        let old_row = self.warehouse_groups.remove(i);
        let stored = WarehouseGroup {
            name: group.name,
            description: group.description,
            ..old_row
        };
        proof {
            let s = old(self).warehouse_groups@;
            assert(s.remove(i as int).insert(i as int, stored) =~= s.update(i as int, stored));
            lemma_sorted_update(s, warehouse_group_leq(), stored, i as int);
            lemma_unique_update_fresh(s, warehouse_group_id_key(), stored, i as int);
            lemma_all_rows_update(s, warehouse_group_row_wf(), stored, i as int);
        }
        self.warehouse_groups.insert(i, stored);
        Ok(())
    }

    /// Removes the single warehouse item identified by its group and product.
    pub fn delete_warehouse_group_item(&mut self, group_id: String, product_id: String) -> (r:
        Result<(), CmdError>)
        requires
            old(self).wf(),
        ensures
            final(self).wf(),
            r is Ok,
            final(self).users == old(self).users,
            final(self).clients == old(self).clients,
            final(self).next_client_id == old(self).next_client_id,
            final(self).products == old(self).products,
            final(self).categories == old(self).categories,
            final(self).subcategories == old(self).subcategories,
            final(self).invoices == old(self).invoices,
            final(self).invoice_items == old(self).invoice_items,
            final(self).deliveries == old(self).deliveries,
            final(self).delivery_items == old(self).delivery_items,
            final(self).warehouse_groups == old(self).warehouse_groups,
            final(self).suppliers == old(self).suppliers,
            final(self).next_supplier_id == old(self).next_supplier_id,
            final(self).supplier_sectors == old(self).supplier_sectors,
            final(self).supplier_products == old(self).supplier_products,
            final(self).countries == old(self).countries,
            final(self).warehouse_items@ == old(self).warehouse_items@.filter(
                wi_not_pair(group_id@, product_id@),
            ),
    {
        let n = self.warehouse_items.len();
        let mut kept: Vec<WarehouseItem> = Vec::new();
        let mut i: usize = 0;
        while i < n
            invariant
                i <= n,
                n == self.warehouse_items@.len(),
                self.wf(),
                kept@ == self.warehouse_items@.take(i as int).filter(
                    wi_not_pair(group_id@, product_id@),
                ),
            decreases n - i,
        {
            let row = &self.warehouse_items[i];
            proof {
                lemma_filter_take_step(
                    self.warehouse_items@,
                    wi_not_pair(group_id@, product_id@),
                    i as int,
                );
            }
            if !(str_eq(row.group_id.as_str(), group_id.as_str()) && str_eq(
                row.product_id.as_str(),
                product_id.as_str(),
            )) {
                kept.push(row.clone());
            }
            i = i + 1;
        }
        proof {
            lemma_take_full(self.warehouse_items@);
            lemma_filter_all_rows(
                self.warehouse_items@,
                wi_not_pair(group_id@, product_id@),
                warehouse_item_row_wf(),
            );
            lemma_filter_unique_by(
                self.warehouse_items@,
                wi_not_pair(group_id@, product_id@),
                warehouse_item_id_key(),
            );
        }
        self.warehouse_items = kept;
        Ok(())
    }

    /// Deletes a warehouse group and, first, every item it holds.
    pub fn delete_warehouse_group(&mut self, id: String) -> (r: Result<(), CmdError>)
        requires
            old(self).wf(),
        ensures
            final(self).wf(),
            r is Ok,
            final(self).users == old(self).users,
            final(self).clients == old(self).clients,
            final(self).next_client_id == old(self).next_client_id,
            final(self).products == old(self).products,
            final(self).categories == old(self).categories,
            final(self).subcategories == old(self).subcategories,
            final(self).invoices == old(self).invoices,
            final(self).invoice_items == old(self).invoice_items,
            final(self).deliveries == old(self).deliveries,
            final(self).delivery_items == old(self).delivery_items,
            final(self).suppliers == old(self).suppliers,
            final(self).next_supplier_id == old(self).next_supplier_id,
            final(self).supplier_sectors == old(self).supplier_sectors,
            final(self).supplier_products == old(self).supplier_products,
            final(self).countries == old(self).countries,
            final(self).warehouse_items@ == old(self).warehouse_items@.filter(wi_not_in_group(id@)),
            final(self).warehouse_groups@ == old(self).warehouse_groups@.filter(wg_id_not(id@)),
    {
        let n = self.warehouse_items.len();
        let mut kept: Vec<WarehouseItem> = Vec::new();
        let mut i: usize = 0;
        while i < n
            invariant
                i <= n,
                n == self.warehouse_items@.len(),
                self.wf(),
                kept@ == self.warehouse_items@.take(i as int).filter(wi_not_in_group(id@)),
            decreases n - i,
        {
            let row = &self.warehouse_items[i];
            proof {
                lemma_filter_take_step(self.warehouse_items@, wi_not_in_group(id@), i as int);
            }
            if !str_eq(row.group_id.as_str(), id.as_str()) {
                kept.push(row.clone());
            }
            i = i + 1;
        }
        proof {
            lemma_take_full(self.warehouse_items@);
            lemma_filter_all_rows(
                self.warehouse_items@,
                wi_not_in_group(id@),
                warehouse_item_row_wf(),
            );
            lemma_filter_unique_by(
                self.warehouse_items@,
                wi_not_in_group(id@),
                warehouse_item_id_key(),
            );
        }
        self.warehouse_items = kept;

        let n = self.warehouse_groups.len();
        let mut kept: Vec<WarehouseGroup> = Vec::new();
        let mut i: usize = 0;
        while i < n
            invariant
                i <= n,
                n == self.warehouse_groups@.len(),
                self.wf(),
                kept@ == self.warehouse_groups@.take(i as int).filter(wg_id_not(id@)),
            decreases n - i,
        {
            let row = &self.warehouse_groups[i];
            assert(warehouse_group_row_wf()(self.warehouse_groups@[i as int]));
            proof {
                lemma_filter_take_step(self.warehouse_groups@, wg_id_not(id@), i as int);
            }
            if !str_eq(row.id.as_ref().unwrap().as_str(), id.as_str()) {
                kept.push(row.clone());
            }
            i = i + 1;
        }
        proof {
            lemma_take_full(self.warehouse_groups@);
            lemma_filter_all_rows(self.warehouse_groups@, wg_id_not(id@), warehouse_group_row_wf());
            lemma_filter_unique_by(self.warehouse_groups@, wg_id_not(id@), warehouse_group_id_key());
            lemma_filter_sorted(self.warehouse_groups@, wg_id_not(id@), warehouse_group_leq());
        }
        self.warehouse_groups = kept;
        Ok(())
    }
}

} // verus!
