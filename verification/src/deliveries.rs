//! Delivery commands.
//!
//! Deliveries carry a unique delivery number and list newest-first; creating
//! one inserts the parent row and then each item, as for invoices.

use vstd::prelude::*;

use crate::domain::Delivery;
use crate::domain::DeliveryItem;
use crate::error::CmdError;
use crate::ids::fresh_id;
use crate::ids::now_rfc3339;
use crate::seqs::lemma_all_rows_insert;
use crate::seqs::lemma_take_full;
use crate::seqs::lemma_unique_insert;
use crate::seqs::sorted_by;
use crate::store::delivery_created_key;
use crate::store::delivery_id_key;
use crate::store::delivery_item_id_key;
use crate::store::delivery_item_row_wf;
use crate::store::delivery_leq;
use crate::store::delivery_number_key;
use crate::store::delivery_row_wf;
use crate::store::first_not;
use crate::store::lemma_first_not_from_props;
use crate::store::lemma_sorted_insert_desc;
use crate::store::opt_str_view;
use crate::store::Store;
use crate::strcmp::seq_str_le;
use crate::strcmp::str_eq;
use crate::strcmp::str_le;

verus! {

/// A delivery row created no earlier than `ts`.
pub open spec fn del_created_ge(ts: Seq<char>) -> spec_fn(Delivery) -> bool {
    |d: Delivery| seq_str_le(ts, opt_str_view(d.created_at))
}

/// The stored form of a created delivery.
pub open spec fn stored_delivery(delivery: Delivery, id: Seq<char>, row: Delivery, ts: Seq<char>)
    -> bool {
    &&& row == (Delivery { id: row.id, created_at: row.created_at, ..delivery })
    &&& row.id is Some && opt_str_view(row.id) == id
    &&& row.created_at is Some && opt_str_view(row.created_at) == ts
}

/// The stored form of a created delivery item.
pub open spec fn stored_delivery_item(item: DeliveryItem, del: Seq<char>, row: DeliveryItem)
    -> bool {
    &&& row.id is Some
    &&& row.delivery_id@ == del
    &&& row.product_id == item.product_id
    &&& row.product_name == item.product_name
    &&& row.quantity == item.quantity
}

impl Store {
    /// Lists every delivery, newest first.
    pub fn get_deliveries(&self) -> (r: Vec<Delivery>)
        requires
            self.wf(),
        ensures
            r@ == self.deliveries@,
            sorted_by(r@, delivery_leq()),
    {
        let n = self.deliveries.len();
        let mut out: Vec<Delivery> = Vec::new();
        let mut i: usize = 0;
        while i < n
            invariant
                i <= n,
                n == self.deliveries@.len(),
                out@ == self.deliveries@.take(i as int),
            decreases n - i,
        {
            out.push(self.deliveries[i].clone());
            proof {
                assert(self.deliveries@.take(i + 1) =~= self.deliveries@.take(i as int).push(
                    self.deliveries@[i as int],
                ));
            }
            i = i + 1;
        }
        proof {
            lemma_take_full(self.deliveries@);
        }
        out
    }

    /// Inserts the parent delivery row with the given identifier and
    /// timestamp.
    pub fn create_delivery_row(&mut self, delivery: &Delivery, id: String, created_at: String)
        -> (r: Result<String, CmdError>)
        requires
            old(self).wf(),
        ensures
            final(self).wf(),
            final(self).users == old(self).users,
            final(self).clients == old(self).clients,
            final(self).next_client_id == old(self).next_client_id,
            final(self).products == old(self).products,
            final(self).categories == old(self).categories,
            final(self).subcategories == old(self).subcategories,
            final(self).invoices == old(self).invoices,
            final(self).invoice_items == old(self).invoice_items,
            final(self).delivery_items == old(self).delivery_items,
            final(self).warehouse_groups == old(self).warehouse_groups,
            final(self).warehouse_items == old(self).warehouse_items,
            final(self).suppliers == old(self).suppliers,
            final(self).next_supplier_id == old(self).next_supplier_id,
            final(self).supplier_sectors == old(self).supplier_sectors,
            final(self).supplier_products == old(self).supplier_products,
            final(self).countries == old(self).countries,
            match r {
                Ok(rid) => {
                    &&& rid@ == id@
                    &&& forall|i: int|
                        0 <= i < old(self).deliveries@.len() ==> opt_str_view(
                            (#[trigger] old(self).deliveries@[i]).id,
                        ) != id@
                    &&& forall|i: int|
                        0 <= i < old(self).deliveries@.len() ==> (#[trigger] old(
                            self,
                        ).deliveries@[i]).delivery_number@ != delivery.delivery_number@
                    &&& exists|row: Delivery|
                        stored_delivery(*delivery, id@, row, created_at@) && final(self).deliveries@
                            == old(self).deliveries@.insert(
                            first_not(old(self).deliveries@, del_created_ge(created_at@)),
                            row,
                        )
                },
                Err(e) => {
                    let has_id = exists|i: int|
                        0 <= i < old(self).deliveries@.len() && opt_str_view(
                            (#[trigger] old(self).deliveries@[i]).id,
                        ) == id@;
                    let has_num = exists|i: int|
                        0 <= i < old(self).deliveries@.len() && (#[trigger] old(
                            self,
                        ).deliveries@[i]).delivery_number@ == delivery.delivery_number@;
                    &&& *final(self) == *old(self)
                    &&& (has_id || has_num)
                    &&& e matches CmdError::StorageError(m) && m@ == (if has_id {
                        "UNIQUE constraint failed: deliveries.id"@
                    } else {
                        "UNIQUE constraint failed: deliveries.delivery_number"@
                    })
                },
            },
    {
        let n = self.deliveries.len();
        let mut i: usize = 0;
        while i < n
            invariant
                i <= n,
                n == self.deliveries@.len(),
                self.wf(),
                forall|j: int|
                    0 <= j < i ==> opt_str_view((#[trigger] self.deliveries@[j]).id) != id@,
            decreases n - i,
        {
            let row = &self.deliveries[i];
            assert(delivery_row_wf()(self.deliveries@[i as int]));
            if str_eq(row.id.as_ref().unwrap().as_str(), id.as_str()) {
                return Err(
                    CmdError::StorageError(
                        String::from_str("UNIQUE constraint failed: deliveries.id"),
                    ),
                );
            }
            i = i + 1;
        }
        let mut i: usize = 0;
        while i < n
            invariant
                i <= n,
                n == self.deliveries@.len(),
                self.wf(),
                forall|j: int|
                    0 <= j < i ==> (#[trigger] self.deliveries@[j]).delivery_number@
                        != delivery.delivery_number@,
                forall|j: int|
                    0 <= j < n ==> opt_str_view((#[trigger] self.deliveries@[j]).id) != id@,
            decreases n - i,
        {
            let row = &self.deliveries[i];
            if str_eq(row.delivery_number.as_str(), delivery.delivery_number.as_str()) {
                return Err(
                    CmdError::StorageError(
                        String::from_str("UNIQUE constraint failed: deliveries.delivery_number"),
                    ),
                );
            }
            i = i + 1;
        }
        let mut k: usize = 0;
        while k < n
            invariant
                k <= n,
                n == self.deliveries@.len(),
                self.wf(),
                forall|j: int|
                    0 <= j < k ==> seq_str_le(
                        created_at@,
                        opt_str_view((#[trigger] self.deliveries@[j]).created_at),
                    ),
            ensures
                k <= n,
                n == self.deliveries@.len(),
                forall|j: int|
                    0 <= j < k ==> seq_str_le(
                        created_at@,
                        opt_str_view((#[trigger] self.deliveries@[j]).created_at),
                    ),
                k < n ==> !seq_str_le(
                    created_at@,
                    opt_str_view(self.deliveries@[k as int].created_at),
                ),
            decreases n - k,
        {
            let row = &self.deliveries[k];
            assert(delivery_row_wf()(self.deliveries@[k as int]));
            if !str_le(created_at.as_str(), row.created_at.as_ref().unwrap().as_str()) {
                break;
            }
            k = k + 1;
        }
        let d2 = delivery.clone();
        let stored = Delivery { id: Some(id.clone()), created_at: Some(created_at.clone()), ..d2 };
        proof {
            lemma_first_not_from_props(self.deliveries@, del_created_ge(created_at@), k as int);
            lemma_sorted_insert_desc(self.deliveries@, delivery_created_key(), stored, k as int);
            lemma_unique_insert(self.deliveries@, delivery_id_key(), stored, k as int);
            lemma_unique_insert(self.deliveries@, delivery_number_key(), stored, k as int);
            lemma_all_rows_insert(self.deliveries@, delivery_row_wf(), stored, k as int);
            assert(stored_delivery(*delivery, id@, stored, created_at@));
        }
        let ghost gstored = stored;
        self.deliveries.insert(k, stored);
        proof {
            assert(stored_delivery(*delivery, id@, gstored, created_at@) && self.deliveries@ == old(
                self,
            ).deliveries@.insert(
                first_not(old(self).deliveries@, del_created_ge(created_at@)),
                gstored,
            ));
        }
        Ok(id)
    }

    /// Appends one delivery item with the given identifier.
    pub fn add_delivery_item_row(
        &mut self,
        delivery_id: &String,
        item: &DeliveryItem,
        item_id: String,
    ) -> (r: Result<(), CmdError>)
        requires
            old(self).wf(),
        ensures
            final(self).wf(),
            final(self).users == old(self).users,
            final(self).clients == old(self).clients,
            final(self).next_client_id == old(self).next_client_id,
            final(self).products == old(self).products,
            final(self).categories == old(self).categories,
            final(self).subcategories == old(self).subcategories,
            final(self).invoices == old(self).invoices,
            final(self).invoice_items == old(self).invoice_items,
            final(self).deliveries == old(self).deliveries,
            final(self).warehouse_groups == old(self).warehouse_groups,
            final(self).warehouse_items == old(self).warehouse_items,
            final(self).suppliers == old(self).suppliers,
            final(self).next_supplier_id == old(self).next_supplier_id,
            final(self).supplier_sectors == old(self).supplier_sectors,
            final(self).supplier_products == old(self).supplier_products,
            final(self).countries == old(self).countries,
            match r {
                Ok(u) => {
                    &&& forall|i: int|
                        0 <= i < old(self).delivery_items@.len() ==> opt_str_view(
                            (#[trigger] old(self).delivery_items@[i]).id,
                        ) != item_id@
                    &&& final(self).delivery_items@ == old(self).delivery_items@.push(
                        (DeliveryItem {
                            id: Some(item_id),
                            delivery_id: *delivery_id,
                            product_id: item.product_id,
                            product_name: item.product_name,
                            quantity: item.quantity,
                        }),
                    )
                },
                Err(e) => {
                    &&& *final(self) == *old(self)
                    &&& (exists|i: int|
                        0 <= i < old(self).delivery_items@.len() && opt_str_view(
                            (#[trigger] old(self).delivery_items@[i]).id,
                        ) == item_id@)
                    &&& e matches CmdError::StorageError(m) && m@
                        == "UNIQUE constraint failed: delivery_items.id"@
                },
            },
    {
        let n = self.delivery_items.len();
        let mut i: usize = 0;
        while i < n
            invariant
                i <= n,
                n == self.delivery_items@.len(),
                self.wf(),
                forall|j: int|
                    0 <= j < i ==> opt_str_view((#[trigger] self.delivery_items@[j]).id)
                        != item_id@,
            decreases n - i,
        {
            let row = &self.delivery_items[i];
            assert(delivery_item_row_wf()(self.delivery_items@[i as int]));
            if str_eq(row.id.as_ref().unwrap().as_str(), item_id.as_str()) {
                return Err(
                    CmdError::StorageError(
                        String::from_str("UNIQUE constraint failed: delivery_items.id"),
                    ),
                );
            }
            i = i + 1;
        }
        let row = DeliveryItem {
            id: Some(item_id),
            delivery_id: delivery_id.clone(),
            product_id: item.product_id.clone(),
            product_name: item.product_name.clone(),
            quantity: item.quantity,
        };
        proof {
            let s = self.delivery_items@;
            let t = s.push(row);
            assert forall|m: int, j: int| 0 <= m < j < t.len() implies delivery_item_id_key()(
                #[trigger] t[m],
            ) != delivery_item_id_key()(#[trigger] t[j]) by {
                if j < s.len() {
                    assert(delivery_item_id_key()(s[m]) != delivery_item_id_key()(s[j]));
                }
            }
            assert forall|m: int| 0 <= m < t.len() implies delivery_item_row_wf()(
                #[trigger] t[m],
            ) by {
                if m < s.len() {
                    assert(delivery_item_row_wf()(s[m]));
                }
            }
        }
        self.delivery_items.push(row);
        Ok(())
    }

    /// Creates a delivery: the parent row, then each item in the supplied
    /// order, every row under a fresh identifier.
    #[verifier::loop_isolation(false)]
    pub fn create_delivery(&mut self, delivery: Delivery, items: Vec<DeliveryItem>) -> (r: Result<
        String,
        CmdError,
    >)
        requires
            old(self).wf(),
        ensures
            final(self).wf(),
            final(self).users == old(self).users,
            final(self).clients == old(self).clients,
            final(self).next_client_id == old(self).next_client_id,
            final(self).products == old(self).products,
            final(self).categories == old(self).categories,
            final(self).subcategories == old(self).subcategories,
            final(self).invoices == old(self).invoices,
            final(self).invoice_items == old(self).invoice_items,
            final(self).warehouse_groups == old(self).warehouse_groups,
            final(self).warehouse_items == old(self).warehouse_items,
            final(self).suppliers == old(self).suppliers,
            final(self).next_supplier_id == old(self).next_supplier_id,
            final(self).supplier_sectors == old(self).supplier_sectors,
            final(self).supplier_products == old(self).supplier_products,
            final(self).countries == old(self).countries,
            match r {
                Ok(rid) => {
                    &&& forall|i: int|
                        0 <= i < old(self).deliveries@.len() ==> (#[trigger] old(
                            self,
                        ).deliveries@[i]).delivery_number@ != delivery.delivery_number@
                    &&& exists|row: Delivery, ts: Seq<char>|
                        stored_delivery(delivery, rid@, row, ts) && final(self).deliveries@ == old(
                            self,
                        ).deliveries@.insert(
                            first_not(old(self).deliveries@, del_created_ge(ts)),
                            row,
                        )
                    &&& final(self).delivery_items@.len() == old(self).delivery_items@.len()
                        + items@.len()
                    &&& forall|j: int|
                        0 <= j < old(self).delivery_items@.len() ==> final(self).delivery_items@[j]
                            == old(self).delivery_items@[j]
                    &&& forall|k: int|
                        0 <= k < items@.len() ==> stored_delivery_item(
                            items@[k],
                            rid@,
                            #[trigger] final(self).delivery_items@[old(self).delivery_items@.len()
                                + k],
                        )
                },
                Err(e) => e matches CmdError::StorageError(m),
            },
            (exists|i: int|
                0 <= i < old(self).deliveries@.len() && (#[trigger] old(
                    self,
                ).deliveries@[i]).delivery_number@ == delivery.delivery_number@) ==> (r is Err
                && *final(self) == *old(self)),
    {
        let id = fresh_id();
        let created_at = now_rfc3339();
        let ghost gdelivery = delivery;
        let ghost gts = created_at@;
        let rid = match self.create_delivery_row(&delivery, id, created_at) {
            Ok(rid) => rid,
            Err(e) => {
                return Err(e);
            },
        };
        let ghost mid_items = self.delivery_items@;
        let ghost mid_deliveries = self.deliveries@;
        let nitems = items.len();
        let mut m: usize = 0;
        while m < nitems
            invariant
                m <= nitems,
                self.wf(),
                self.deliveries@ == mid_deliveries,
                self.delivery_items@.len() == mid_items.len() + m,
                forall|j: int| 0 <= j < mid_items.len() ==> self.delivery_items@[j] == mid_items[j],
                forall|k: int|
                    0 <= k < m ==> stored_delivery_item(
                        items@[k],
                        rid@,
                        #[trigger] self.delivery_items@[mid_items.len() + k],
                    ),
                self.users == old(self).users,
                self.clients == old(self).clients,
                self.next_client_id == old(self).next_client_id,
                self.products == old(self).products,
                self.categories == old(self).categories,
                self.subcategories == old(self).subcategories,
                self.invoices == old(self).invoices,
                self.invoice_items == old(self).invoice_items,
                self.warehouse_groups == old(self).warehouse_groups,
                self.warehouse_items == old(self).warehouse_items,
                self.suppliers == old(self).suppliers,
                self.next_supplier_id == old(self).next_supplier_id,
                self.supplier_sectors == old(self).supplier_sectors,
                self.supplier_products == old(self).supplier_products,
                self.countries == old(self).countries,
            decreases nitems - m,
        {
            let item_id = fresh_id();
            match self.add_delivery_item_row(&rid, &items[m], item_id) {
                Ok(u) => {},
                Err(e) => {
                    return Err(e);
                },
            }
            m = m + 1;
        }
        proof {
            let row = choose|row: Delivery|
                stored_delivery(gdelivery, rid@, row, gts) && mid_deliveries == old(
                    self,
                ).deliveries@.insert(
                    first_not(old(self).deliveries@, del_created_ge(gts)),
                    row,
                );
            assert(stored_delivery(gdelivery, rid@, row, gts) && self.deliveries@ == old(
                self,
            ).deliveries@.insert(
                first_not(old(self).deliveries@, del_created_ge(gts)),
                row,
            ));
        }
        Ok(rid)
    }
}

} // verus!
