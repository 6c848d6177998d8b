//! Invoice commands.
//!
//! Invoices carry a unique invoice number and list newest-first.  Line items
//! live in their own table in insertion order; creating an invoice inserts
//! the parent row and then each item, and deleting one removes the items
//! first.  Both cascades run at the application level and are not wrapped in
//! a transaction, so a failure midway leaves the rows written so far.

use vstd::prelude::*;

use crate::domain::Invoice;
use crate::domain::InvoiceItem;
use crate::domain::InvoiceWithItems;
use crate::error::CmdError;
use crate::ids::fresh_id;
use crate::ids::now_rfc3339;
use crate::seqs::lemma_all_rows_insert;
use crate::seqs::lemma_all_rows_update;
use crate::seqs::lemma_filter_all_rows;
use crate::seqs::lemma_filter_sorted;
use crate::seqs::lemma_filter_take_step;
use crate::seqs::lemma_filter_unique_by;
use crate::seqs::lemma_sorted_update;
use crate::seqs::lemma_take_full;
use crate::seqs::lemma_unique_insert;
use crate::seqs::lemma_unique_update_fresh;
use crate::seqs::sorted_by;
use crate::store::first_not;
use crate::store::first_where;
use crate::store::invoice_created_key;
use crate::store::invoice_id_key;
use crate::store::invoice_item_id_key;
use crate::store::invoice_item_row_wf;
use crate::store::invoice_leq;
use crate::store::invoice_number_key;
use crate::store::invoice_row_wf;
use crate::store::lemma_first_not_from_props;
use crate::store::lemma_first_where_from_props;
use crate::store::lemma_sorted_insert_desc;
use crate::store::opt_str_view;
use crate::store::Store;
use crate::strcmp::seq_str_le;
use crate::strcmp::str_eq;
use crate::strcmp::str_le;

verus! {

/// An invoice row with the given identifier.
pub open spec fn inv_id_is(id: Seq<char>) -> spec_fn(Invoice) -> bool {
    |i: Invoice| opt_str_view(i.id) == id
}

/// An invoice row whose identifier differs from `id`.
pub open spec fn inv_id_not(id: Seq<char>) -> spec_fn(Invoice) -> bool {
    |i: Invoice| opt_str_view(i.id) != id
}

/// An invoice row created no earlier than `ts`.
pub open spec fn inv_created_ge(ts: Seq<char>) -> spec_fn(Invoice) -> bool {
    |i: Invoice| seq_str_le(ts, opt_str_view(i.created_at))
}

/// An invoice row belonging to client `cid`.
pub open spec fn inv_client_is(cid: Seq<char>) -> spec_fn(Invoice) -> bool {
    |i: Invoice| i.client_id is Some && i.client_id->0@ == cid
}

/// A line item belonging to invoice `inv`.
pub open spec fn item_in(inv: Seq<char>) -> spec_fn(InvoiceItem) -> bool {
    |it: InvoiceItem| it.invoice_id@ == inv
}

/// A line item not belonging to invoice `inv`.
pub open spec fn item_not_in(inv: Seq<char>) -> spec_fn(InvoiceItem) -> bool {
    |it: InvoiceItem| it.invoice_id@ != inv
}

/// The first invoice row carrying the given identifier, if any.
pub open spec fn invoice_with_id(s: Seq<Invoice>, id: Seq<char>) -> Option<Invoice>
    decreases s.len(),
{
    if s.len() == 0 {
        None
    } else if opt_str_view(s[0].id) == id {
        Some(s[0])
    } else {
        invoice_with_id(s.skip(1), id)
    }
}

/// The stored form of a created invoice: fresh identifier and timestamp, all
/// business fields taken from the record.
pub open spec fn stored_invoice(invoice: Invoice, id: Seq<char>, row: Invoice, ts: Seq<char>)
    -> bool {
    &&& row == (Invoice { id: row.id, created_at: row.created_at, ..invoice })
    &&& row.id is Some && opt_str_view(row.id) == id
    &&& row.created_at is Some && opt_str_view(row.created_at) == ts
}

/// The stored form of a created line item: fresh identifier, the parent's
/// identifier, and the snapshot fields taken from the supplied item.
pub open spec fn stored_item(item: InvoiceItem, inv: Seq<char>, row: InvoiceItem) -> bool {
    &&& row.id is Some
    &&& row.invoice_id@ == inv
    &&& row.product_id == item.product_id
    &&& row.product_name == item.product_name
    &&& row.quantity == item.quantity
    &&& row.price == item.price
    &&& row.total == item.total
}

impl Store {
    /// Lists every invoice, newest first.
    pub fn get_invoices(&self) -> (r: Vec<Invoice>)
        requires
            self.wf(),
        ensures
            r@ == self.invoices@,
            sorted_by(r@, invoice_leq()),
    {
        let n = self.invoices.len();
        let mut out: Vec<Invoice> = Vec::new();
        let mut i: usize = 0;
        while i < n
            invariant
                i <= n,
                n == self.invoices@.len(),
                out@ == self.invoices@.take(i as int),
            decreases n - i,
        {
            out.push(self.invoices[i].clone());
            proof {
                assert(self.invoices@.take(i + 1) =~= self.invoices@.take(i as int).push(
                    self.invoices@[i as int],
                ));
            }
            i = i + 1;
        }
        proof {
            lemma_take_full(self.invoices@);
        }
        out
    }

    /// Fetches one invoice with its line items, in insertion order.
    pub fn get_invoice_by_id(&self, id: String) -> (r: Option<InvoiceWithItems>)
        requires
            self.wf(),
        ensures
            match invoice_with_id(self.invoices@, id@) {
                None => r is None,
                Some(inv) => {
                    &&& r matches Some(w)
                    &&& w.invoice == inv
                    &&& w.items@ == self.invoice_items@.filter(item_in(id@))
                },
            },
    {
        let n = self.invoices.len();
        let mut i: usize = 0;
        proof {
            assert(self.invoices@.skip(0) =~= self.invoices@);
        }
        while i < n
            invariant
                i <= n,
                n == self.invoices@.len(),
                self.wf(),
                invoice_with_id(self.invoices@, id@) == invoice_with_id(
                    self.invoices@.skip(i as int),
                    id@,
                ),
            decreases n - i,
        {
            let row = &self.invoices[i];
            assert(invoice_row_wf()(self.invoices@[i as int]));
            assert(self.invoices@.skip(i as int)[0] == self.invoices@[i as int]);
            if str_eq(row.id.as_ref().unwrap().as_str(), id.as_str()) {
                let invoice = row.clone();
                let m = self.invoice_items.len();
                let mut items: Vec<InvoiceItem> = Vec::new();
                let mut j: usize = 0;
                while j < m
                    invariant
                        j <= m,
                        m == self.invoice_items@.len(),
                        items@ == self.invoice_items@.take(j as int).filter(item_in(id@)),
                    decreases m - j,
                {
                    let it = &self.invoice_items[j];
                    proof {
                        lemma_filter_take_step(self.invoice_items@, item_in(id@), j as int);
                    }
                    if str_eq(it.invoice_id.as_str(), id.as_str()) {
                        items.push(it.clone());
                    }
                    j = j + 1;
                }
                proof {
                    lemma_take_full(self.invoice_items@);
                }
                return Some(InvoiceWithItems { invoice, items });
            }
            proof {
                assert(self.invoices@.skip(i as int).skip(1) =~= self.invoices@.skip(i + 1));
            }
            i = i + 1;
        }
        None
    }

    /// Inserts the parent invoice row with the given identifier and
    /// timestamp.  Mirrors the engine's unique checks on the identifier and
    /// the invoice number.
    pub fn create_invoice_row(&mut self, invoice: &Invoice, id: String, created_at: String) -> (r:
        Result<String, CmdError>)
        requires
            old(self).wf(),
        ensures
            final(self).wf(),
            final(self).users == old(self).users,
            final(self).clients == old(self).clients,
            final(self).next_client_id == old(self).next_client_id,
            final(self).products == old(self).products,
            final(self).categories == old(self).categories,
            final(self).subcategories == old(self).subcategories,
            final(self).invoice_items == old(self).invoice_items,
            final(self).deliveries == old(self).deliveries,
            final(self).delivery_items == old(self).delivery_items,
            final(self).warehouse_groups == old(self).warehouse_groups,
            final(self).warehouse_items == old(self).warehouse_items,
            final(self).suppliers == old(self).suppliers,
            final(self).next_supplier_id == old(self).next_supplier_id,
            final(self).supplier_sectors == old(self).supplier_sectors,
            final(self).supplier_products == old(self).supplier_products,
            final(self).countries == old(self).countries,
            match r {
                Ok(rid) => {
                    &&& rid@ == id@
                    &&& forall|i: int|
                        0 <= i < old(self).invoices@.len() ==> opt_str_view(
                            (#[trigger] old(self).invoices@[i]).id,
                        ) != id@
                    &&& forall|i: int|
                        0 <= i < old(self).invoices@.len() ==> (#[trigger] old(
                            self,
                        ).invoices@[i]).invoice_number@ != invoice.invoice_number@
                    &&& exists|row: Invoice|
                        stored_invoice(*invoice, id@, row, created_at@) && final(self).invoices@
                            == old(self).invoices@.insert(
                            first_not(old(self).invoices@, inv_created_ge(created_at@)),
                            row,
                        )
                },
                Err(e) => {
                    let has_id = exists|i: int|
                        0 <= i < old(self).invoices@.len() && opt_str_view(
                            (#[trigger] old(self).invoices@[i]).id,
                        ) == id@;
                    let has_num = exists|i: int|
                        0 <= i < old(self).invoices@.len() && (#[trigger] old(
                            self,
                        ).invoices@[i]).invoice_number@ == invoice.invoice_number@;
                    &&& *final(self) == *old(self)
                    &&& (has_id || has_num)
                    &&& e matches CmdError::StorageError(m) && m@ == (if has_id {
                        "UNIQUE constraint failed: invoices.id"@
                    } else {
                        "UNIQUE constraint failed: invoices.invoice_number"@
                    })
                },
            },
    {
        let n = self.invoices.len();
        let mut i: usize = 0;
        while i < n
            invariant
                i <= n,
                n == self.invoices@.len(),
                self.wf(),
                forall|j: int|
                    0 <= j < i ==> opt_str_view((#[trigger] self.invoices@[j]).id) != id@,
            decreases n - i,
        {
            let row = &self.invoices[i];
            assert(invoice_row_wf()(self.invoices@[i as int]));
            if str_eq(row.id.as_ref().unwrap().as_str(), id.as_str()) {
                return Err(
                    CmdError::StorageError(
                        String::from_str("UNIQUE constraint failed: invoices.id"),
                    ),
                );
            }
            i = i + 1;
        }
        let mut i: usize = 0;
        while i < n
            invariant
                i <= n,
                n == self.invoices@.len(),
                self.wf(),
                forall|j: int|
                    0 <= j < i ==> (#[trigger] self.invoices@[j]).invoice_number@
                        != invoice.invoice_number@,
                forall|j: int|
                    0 <= j < n ==> opt_str_view((#[trigger] self.invoices@[j]).id) != id@,
            decreases n - i,
        {
            let row = &self.invoices[i];
            if str_eq(row.invoice_number.as_str(), invoice.invoice_number.as_str()) {
                return Err(
                    CmdError::StorageError(
                        String::from_str("UNIQUE constraint failed: invoices.invoice_number"),
                    ),
                );
            }
            i = i + 1;
        }
        let mut k: usize = 0;
        while k < n
            invariant
                k <= n,
                n == self.invoices@.len(),
                self.wf(),
                forall|j: int|
                    0 <= j < k ==> seq_str_le(
                        created_at@,
                        opt_str_view((#[trigger] self.invoices@[j]).created_at),
                    ),
            ensures
                k <= n,
                n == self.invoices@.len(),
                forall|j: int|
                    0 <= j < k ==> seq_str_le(
                        created_at@,
                        opt_str_view((#[trigger] self.invoices@[j]).created_at),
                    ),
                k < n ==> !seq_str_le(created_at@, opt_str_view(self.invoices@[k as int].created_at)),
            decreases n - k,
        {
            let row = &self.invoices[k];
            assert(invoice_row_wf()(self.invoices@[k as int]));
            if !str_le(created_at.as_str(), row.created_at.as_ref().unwrap().as_str()) {
                break;
            }
            k = k + 1;
        }
        let inv2 = invoice.clone();
        let stored = Invoice {
            id: Some(id.clone()),
            created_at: Some(created_at.clone()),
            ..inv2
        };
        proof {
            lemma_first_not_from_props(self.invoices@, inv_created_ge(created_at@), k as int);
            lemma_sorted_insert_desc(self.invoices@, invoice_created_key(), stored, k as int);
            lemma_unique_insert(self.invoices@, invoice_id_key(), stored, k as int);
            lemma_unique_insert(self.invoices@, invoice_number_key(), stored, k as int);
            lemma_all_rows_insert(self.invoices@, invoice_row_wf(), stored, k as int);
            assert(stored_invoice(*invoice, id@, stored, created_at@));
        }
        let ghost gstored = stored;
        self.invoices.insert(k, stored);
        proof {
            assert(stored_invoice(*invoice, id@, gstored, created_at@) && self.invoices@ == old(
                self,
            ).invoices@.insert(
                first_not(old(self).invoices@, inv_created_ge(created_at@)),
                gstored,
            ));
        }
        Ok(id)
    }

    /// Appends one line item with the given identifier to an invoice.
    pub fn add_invoice_item_row(&mut self, invoice_id: &String, item: &InvoiceItem, item_id: String)
        -> (r: Result<(), CmdError>)
        requires
            old(self).wf(),
        ensures
            final(self).wf(),
            final(self).users == old(self).users,
            final(self).clients == old(self).clients,
            final(self).next_client_id == old(self).next_client_id,
            final(self).products == old(self).products,
            final(self).categories == old(self).categories,
            final(self).subcategories == old(self).subcategories,
            final(self).invoices == old(self).invoices,
            final(self).deliveries == old(self).deliveries,
            final(self).delivery_items == old(self).delivery_items,
            final(self).warehouse_groups == old(self).warehouse_groups,
            final(self).warehouse_items == old(self).warehouse_items,
            final(self).suppliers == old(self).suppliers,
            final(self).next_supplier_id == old(self).next_supplier_id,
            final(self).supplier_sectors == old(self).supplier_sectors,
            final(self).supplier_products == old(self).supplier_products,
            final(self).countries == old(self).countries,
            match r {
                Ok(u) => {
                    &&& forall|i: int|
                        0 <= i < old(self).invoice_items@.len() ==> opt_str_view(
                            (#[trigger] old(self).invoice_items@[i]).id,
                        ) != item_id@
                    &&& final(self).invoice_items@ == old(self).invoice_items@.push(
                        (InvoiceItem {
                            id: Some(item_id),
                            invoice_id: *invoice_id,
                            product_id: item.product_id,
                            product_name: item.product_name,
                            quantity: item.quantity,
                            price: item.price,
                            total: item.total,
                        }),
                    )
                },
                Err(e) => {
                    &&& *final(self) == *old(self)
                    &&& (exists|i: int|
                        0 <= i < old(self).invoice_items@.len() && opt_str_view(
                            (#[trigger] old(self).invoice_items@[i]).id,
                        ) == item_id@)
                    &&& e matches CmdError::StorageError(m) && m@
                        == "UNIQUE constraint failed: invoice_items.id"@
                },
            },
    {
        let n = self.invoice_items.len();
        let mut i: usize = 0;
        while i < n
            invariant
                i <= n,
                n == self.invoice_items@.len(),
                self.wf(),
                forall|j: int|
                    0 <= j < i ==> opt_str_view((#[trigger] self.invoice_items@[j]).id) != item_id@,
            decreases n - i,
        {
            let row = &self.invoice_items[i];
            assert(invoice_item_row_wf()(self.invoice_items@[i as int]));
            if str_eq(row.id.as_ref().unwrap().as_str(), item_id.as_str()) {
                return Err(
                    CmdError::StorageError(
                        String::from_str("UNIQUE constraint failed: invoice_items.id"),
                    ),
                );
            }
            i = i + 1;
        }
        let row = InvoiceItem {
            id: Some(item_id),
            invoice_id: invoice_id.clone(),
            product_id: item.product_id.clone(),
            product_name: item.product_name.clone(),
            quantity: item.quantity,
            price: item.price,
            total: item.total,
        };
        proof {
            let s = self.invoice_items@;
            let t = s.push(row);
            assert forall|m: int, j: int| 0 <= m < j < t.len() implies invoice_item_id_key()(
                #[trigger] t[m],
            ) != invoice_item_id_key()(#[trigger] t[j]) by {
                if j < s.len() {
                    assert(invoice_item_id_key()(s[m]) != invoice_item_id_key()(s[j]));
                }
            }
            assert forall|m: int| 0 <= m < t.len() implies invoice_item_row_wf()(
                #[trigger] t[m],
            ) by {
                if m < s.len() {
                    assert(invoice_item_row_wf()(s[m]));
                }
            }
        }
        self.invoice_items.push(row);
        Ok(())
    }

    /// Creates an invoice: the parent row, then each item in the supplied
    /// order, every row under a fresh identifier.  A failure after the parent
    /// was inserted leaves the rows written so far.
    #[verifier::loop_isolation(false)]
    pub fn create_invoice(&mut self, invoice: Invoice, items: Vec<InvoiceItem>) -> (r: Result<
        String,
        CmdError,
    >)
        requires
            old(self).wf(),
        ensures
            final(self).wf(),
            final(self).users == old(self).users,
            final(self).clients == old(self).clients,
            final(self).next_client_id == old(self).next_client_id,
            final(self).products == old(self).products,
            final(self).categories == old(self).categories,
            final(self).subcategories == old(self).subcategories,
            final(self).deliveries == old(self).deliveries,
            final(self).delivery_items == old(self).delivery_items,
            final(self).warehouse_groups == old(self).warehouse_groups,
            final(self).warehouse_items == old(self).warehouse_items,
            final(self).suppliers == old(self).suppliers,
            final(self).next_supplier_id == old(self).next_supplier_id,
            final(self).supplier_sectors == old(self).supplier_sectors,
            final(self).supplier_products == old(self).supplier_products,
            final(self).countries == old(self).countries,
            match r {
                Ok(rid) => {
                    &&& forall|i: int|
                        0 <= i < old(self).invoices@.len() ==> (#[trigger] old(
                            self,
                        ).invoices@[i]).invoice_number@ != invoice.invoice_number@
                    &&& exists|row: Invoice, ts: Seq<char>|
                        stored_invoice(invoice, rid@, row, ts) && final(self).invoices@ == old(
                            self,
                        ).invoices@.insert(
                            first_not(old(self).invoices@, inv_created_ge(ts)),
                            row,
                        )
                    &&& final(self).invoice_items@.len() == old(self).invoice_items@.len()
                        + items@.len()
                    &&& forall|j: int|
                        0 <= j < old(self).invoice_items@.len() ==> final(self).invoice_items@[j]
                            == old(self).invoice_items@[j]
                    &&& forall|k: int|
                        0 <= k < items@.len() ==> stored_item(
                            items@[k],
                            rid@,
                            #[trigger] final(self).invoice_items@[old(self).invoice_items@.len()
                                + k],
                        )
                },
                Err(e) => e matches CmdError::StorageError(m),
            },
            (exists|i: int|
                0 <= i < old(self).invoices@.len() && (#[trigger] old(
                    self,
                ).invoices@[i]).invoice_number@ == invoice.invoice_number@) ==> (r is Err
                && *final(self) == *old(self)),
    {
        let id = fresh_id();
        let created_at = now_rfc3339();
        let ghost ginvoice = invoice;
        let ghost gts = created_at@;
        let rid = match self.create_invoice_row(&invoice, id, created_at) {
            Ok(rid) => rid,
            Err(e) => {
                return Err(e);
            },
        };
        let ghost mid_items = self.invoice_items@;
        let ghost mid_invoices = self.invoices@;
        assert(mid_items == old(self).invoice_items@);
        let nitems = items.len();
        let mut m: usize = 0;
        while m < nitems
            invariant
                m <= nitems,
                nitems == items@.len(),
                self.wf(),
                rid@.len() == 36,
                self.invoices@ == mid_invoices,
                self.invoice_items@.len() == mid_items.len() + m,
                forall|j: int| 0 <= j < mid_items.len() ==> self.invoice_items@[j] == mid_items[j],
                forall|k: int|
                    0 <= k < m ==> stored_item(
                        items@[k],
                        rid@,
                        #[trigger] self.invoice_items@[mid_items.len() + k],
                    ),
                self.users == old(self).users,
                self.clients == old(self).clients,
                self.next_client_id == old(self).next_client_id,
                self.products == old(self).products,
                self.categories == old(self).categories,
                self.subcategories == old(self).subcategories,
                self.deliveries == old(self).deliveries,
                self.delivery_items == old(self).delivery_items,
                self.warehouse_groups == old(self).warehouse_groups,
                self.warehouse_items == old(self).warehouse_items,
                self.suppliers == old(self).suppliers,
                self.next_supplier_id == old(self).next_supplier_id,
                self.supplier_sectors == old(self).supplier_sectors,
                self.supplier_products == old(self).supplier_products,
                self.countries == old(self).countries,
            decreases nitems - m,
        {
            let item_id = fresh_id();
            match self.add_invoice_item_row(&rid, &items[m], item_id) {
                Ok(u) => {},
                Err(e) => {
                    return Err(e);
                },
            }
            m = m + 1;
        }
        proof {
            let row = choose|row: Invoice|
                stored_invoice(ginvoice, rid@, row, gts) && mid_invoices == old(
                    self,
                ).invoices@.insert(
                    first_not(old(self).invoices@, inv_created_ge(gts)),
                    row,
                );
            assert(stored_invoice(ginvoice, rid@, row, gts) && self.invoices@ == old(
                self,
            ).invoices@.insert(
                first_not(old(self).invoices@, inv_created_ge(gts)),
                row,
            ));
        }
        Ok(rid)
    }

    /// Sets the status of one invoice; a missing row is a no-op.
    pub fn update_invoice_status(&mut self, id: String, status: String) -> (r: Result<(), CmdError>)
        requires
            old(self).wf(),
        ensures
            final(self).wf(),
            r is Ok,
            final(self).users == old(self).users,
            final(self).clients == old(self).clients,
            final(self).next_client_id == old(self).next_client_id,
            final(self).products == old(self).products,
            final(self).categories == old(self).categories,
            final(self).subcategories == old(self).subcategories,
            final(self).invoice_items == old(self).invoice_items,
            final(self).deliveries == old(self).deliveries,
            final(self).delivery_items == old(self).delivery_items,
            final(self).warehouse_groups == old(self).warehouse_groups,
            final(self).warehouse_items == old(self).warehouse_items,
            final(self).suppliers == old(self).suppliers,
            final(self).next_supplier_id == old(self).next_supplier_id,
            final(self).supplier_sectors == old(self).supplier_sectors,
            final(self).supplier_products == old(self).supplier_products,
            final(self).countries == old(self).countries,
            ({
                let idx = first_where(old(self).invoices@, inv_id_is(id@));
                if idx < old(self).invoices@.len() {
                    final(self).invoices@ == old(self).invoices@.update(
                        idx,
                        (Invoice { status: status, ..old(self).invoices@[idx] }),
                    )
                } else {
                    final(self).invoices@ == old(self).invoices@
                }
            }),
    {
        let n = self.invoices.len();
        let mut i: usize = 0;
        while i < n
            invariant
                i <= n,
                n == self.invoices@.len(),
                self.wf(),
                forall|j: int|
                    0 <= j < i ==> opt_str_view((#[trigger] self.invoices@[j]).id) != id@,
            ensures
                i <= n,
                n == self.invoices@.len(),
                forall|j: int|
                    0 <= j < i ==> opt_str_view((#[trigger] self.invoices@[j]).id) != id@,
                i < n ==> opt_str_view(self.invoices@[i as int].id) == id@,
            decreases n - i,
        {
            let row = &self.invoices[i];
            assert(invoice_row_wf()(self.invoices@[i as int]));
            if str_eq(row.id.as_ref().unwrap().as_str(), id.as_str()) {
                break;
            }
            i = i + 1;
        }
        proof {
            lemma_first_where_from_props(self.invoices@, inv_id_is(id@), i as int);
        }
        if i == n {
            return Ok(());
        }
        let old_row = self.invoices.remove(i);
        let stored = Invoice { status: status, ..old_row };
        proof {
            let s = old(self).invoices@;
            assert(s.remove(i as int).insert(i as int, stored) =~= s.update(i as int, stored));
            lemma_sorted_update(s, invoice_leq(), stored, i as int);
            lemma_unique_update_fresh(s, invoice_id_key(), stored, i as int);
            assert forall|j: int| 0 <= j < s.len() && j != i implies invoice_number_key()(
                #[trigger] s[j],
            ) != invoice_number_key()(stored) by {
                if j < i {
                    assert(invoice_number_key()(s[j]) != invoice_number_key()(s[i as int]));
                } else {
                    assert(invoice_number_key()(s[i as int]) != invoice_number_key()(s[j]));
                }
            }
            lemma_unique_update_fresh(s, invoice_number_key(), stored, i as int);
            lemma_all_rows_update(s, invoice_row_wf(), stored, i as int);
        }
        self.invoices.insert(i, stored);
        Ok(())
    }

    /// Replaces every business field of one invoice; a missing row is a
    /// no-op.  The stored row keeps its creation time; the invoice number
    /// must stay unique.
    pub fn update_invoice(&mut self, id: String, invoice: Invoice) -> (r: Result<Invoice, CmdError>)
        requires
            old(self).wf(),
        ensures
            final(self).wf(),
            final(self).users == old(self).users,
            final(self).clients == old(self).clients,
            final(self).next_client_id == old(self).next_client_id,
            final(self).products == old(self).products,
            final(self).categories == old(self).categories,
            final(self).subcategories == old(self).subcategories,
            final(self).invoice_items == old(self).invoice_items,
            final(self).deliveries == old(self).deliveries,
            final(self).delivery_items == old(self).delivery_items,
            final(self).warehouse_groups == old(self).warehouse_groups,
            final(self).warehouse_items == old(self).warehouse_items,
            final(self).suppliers == old(self).suppliers,
            final(self).next_supplier_id == old(self).next_supplier_id,
            final(self).supplier_sectors == old(self).supplier_sectors,
            final(self).supplier_products == old(self).supplier_products,
            final(self).countries == old(self).countries,
            match r {
                Ok(row) => {
                    &&& row == (Invoice { id: Some(id), ..invoice })
                    &&& ({
                        let idx = first_where(old(self).invoices@, inv_id_is(id@));
                        if idx < old(self).invoices@.len() {
                            final(self).invoices@ == old(self).invoices@.update(
                                idx,
                                (Invoice {
                                    id: old(self).invoices@[idx].id,
                                    created_at: old(self).invoices@[idx].created_at,
                                    ..invoice
                                }),
                            )
                        } else {
                            final(self).invoices@ == old(self).invoices@
                        }
                    })
                },
                Err(e) => {
                    &&& *final(self) == *old(self)
                    &&& e matches CmdError::StorageError(m) && m@
                        == "UNIQUE constraint failed: invoices.invoice_number"@
                    &&& exists|j: int|
                        0 <= j < old(self).invoices@.len() && opt_str_view(
                            (#[trigger] old(self).invoices@[j]).id,
                        ) != id@ && old(self).invoices@[j].invoice_number@
                            == invoice.invoice_number@
                },
            },
    {
        let n = self.invoices.len();
        let mut i: usize = 0;
        while i < n
            invariant
                i <= n,
                n == self.invoices@.len(),
                self.wf(),
                forall|j: int|
                    0 <= j < i ==> opt_str_view((#[trigger] self.invoices@[j]).id) != id@,
            ensures
                i <= n,
                n == self.invoices@.len(),
                forall|j: int|
                    0 <= j < i ==> opt_str_view((#[trigger] self.invoices@[j]).id) != id@,
                i < n ==> opt_str_view(self.invoices@[i as int].id) == id@,
            decreases n - i,
        {
            let row = &self.invoices[i];
            assert(invoice_row_wf()(self.invoices@[i as int]));
            if str_eq(row.id.as_ref().unwrap().as_str(), id.as_str()) {
                break;
            }
            i = i + 1;
        }
        proof {
            lemma_first_where_from_props(self.invoices@, inv_id_is(id@), i as int);
        }
        if i == n {
            return Ok(Invoice { id: Some(id), ..invoice });
        }
        let mut j: usize = 0;
        while j < n
            invariant
                j <= n,
                n == self.invoices@.len(),
                self.wf(),
                i < n,
                opt_str_view(self.invoices@[i as int].id) == id@,
                forall|m: int|
                    0 <= m < j && m != i ==> (#[trigger] self.invoices@[m]).invoice_number@
                        != invoice.invoice_number@,
            decreases n - j,
        {
            if j != i {
                let row = &self.invoices[j];
                if str_eq(row.invoice_number.as_str(), invoice.invoice_number.as_str()) {
                    proof {
                        if (j as int) < (i as int) {
                            assert(invoice_id_key()(self.invoices@[j as int]) != invoice_id_key()(
                                self.invoices@[i as int],
                            ));
                        } else {
                            assert(invoice_id_key()(self.invoices@[i as int]) != invoice_id_key()(
                                self.invoices@[j as int],
                            ));
                        }
                    }
                    assert(opt_str_view(self.invoices@[j as int].id) != id@);
                    return Err(
                        CmdError::StorageError(
                            String::from_str("UNIQUE constraint failed: invoices.invoice_number"),
                        ),
                    );
                }
            }
            j = j + 1;
        }
        let inv2 = invoice.clone();
        let old_row = self.invoices.remove(i);
        let stored = Invoice { id: old_row.id, created_at: old_row.created_at, ..inv2 };
        proof {
            let s = old(self).invoices@;
            assert(s.remove(i as int).insert(i as int, stored) =~= s.update(i as int, stored));
            lemma_sorted_update(s, invoice_leq(), stored, i as int);
            lemma_unique_update_fresh(s, invoice_id_key(), stored, i as int);
            lemma_unique_update_fresh(s, invoice_number_key(), stored, i as int);
            lemma_all_rows_update(s, invoice_row_wf(), stored, i as int);
        }
        self.invoices.insert(i, stored);
        Ok(Invoice { id: Some(id), ..invoice })
    }

    /// Deletes an invoice and, first, every line item that references it.
    pub fn delete_invoice(&mut self, id: String) -> (r: Result<(), CmdError>)
        requires
            old(self).wf(),
        ensures
            final(self).wf(),
            r is Ok,
            final(self).users == old(self).users,
            final(self).clients == old(self).clients,
            final(self).next_client_id == old(self).next_client_id,
            final(self).products == old(self).products,
            final(self).categories == old(self).categories,
            final(self).subcategories == old(self).subcategories,
            final(self).deliveries == old(self).deliveries,
            final(self).delivery_items == old(self).delivery_items,
            final(self).warehouse_groups == old(self).warehouse_groups,
            final(self).warehouse_items == old(self).warehouse_items,
            final(self).suppliers == old(self).suppliers,
            final(self).next_supplier_id == old(self).next_supplier_id,
            final(self).supplier_sectors == old(self).supplier_sectors,
            final(self).supplier_products == old(self).supplier_products,
            final(self).countries == old(self).countries,
            final(self).invoice_items@ == old(self).invoice_items@.filter(item_not_in(id@)),
            final(self).invoices@ == old(self).invoices@.filter(inv_id_not(id@)),
    {
        let n = self.invoice_items.len();
        let mut kept: Vec<InvoiceItem> = Vec::new();
        let mut i: usize = 0;
        while i < n
            invariant
                i <= n,
                n == self.invoice_items@.len(),
                self.wf(),
                kept@ == self.invoice_items@.take(i as int).filter(item_not_in(id@)),
            decreases n - i,
        {
            let row = &self.invoice_items[i];
            proof {
                lemma_filter_take_step(self.invoice_items@, item_not_in(id@), i as int);
            }
            if !str_eq(row.invoice_id.as_str(), id.as_str()) {
                kept.push(row.clone());
            }
            i = i + 1;
        }
        proof {
            lemma_take_full(self.invoice_items@);
            lemma_filter_all_rows(self.invoice_items@, item_not_in(id@), invoice_item_row_wf());
            lemma_filter_unique_by(self.invoice_items@, item_not_in(id@), invoice_item_id_key());
        }
        self.invoice_items = kept;

        let n = self.invoices.len();
        let mut kept: Vec<Invoice> = Vec::new();
        let mut i: usize = 0;
        while i < n
            invariant
                i <= n,
                n == self.invoices@.len(),
                self.wf(),
                kept@ == self.invoices@.take(i as int).filter(inv_id_not(id@)),
            decreases n - i,
        {
            let row = &self.invoices[i];
            assert(invoice_row_wf()(self.invoices@[i as int]));
            proof {
                lemma_filter_take_step(self.invoices@, inv_id_not(id@), i as int);
            }
            if !str_eq(row.id.as_ref().unwrap().as_str(), id.as_str()) {
                kept.push(row.clone());
            }
            i = i + 1;
        }
        proof {
            lemma_take_full(self.invoices@);
            lemma_filter_all_rows(self.invoices@, inv_id_not(id@), invoice_row_wf());
            lemma_filter_unique_by(self.invoices@, inv_id_not(id@), invoice_id_key());
            lemma_filter_unique_by(self.invoices@, inv_id_not(id@), invoice_number_key());
            lemma_filter_sorted(self.invoices@, inv_id_not(id@), invoice_leq());
        }
        self.invoices = kept;
        Ok(())
    }

    /// Lists the invoices of one client, newest first.
    pub fn get_client_history(&self, client_id: String) -> (r: Vec<Invoice>)
        requires
            self.wf(),
        ensures
            r@ == self.invoices@.filter(inv_client_is(client_id@)),
            sorted_by(r@, invoice_leq()),
    {
        let n = self.invoices.len();
        let mut out: Vec<Invoice> = Vec::new();
        let mut i: usize = 0;
        while i < n
            invariant
                i <= n,
                n == self.invoices@.len(),
                self.wf(),
                out@ == self.invoices@.take(i as int).filter(inv_client_is(client_id@)),
            decreases n - i,
        {
            let row = &self.invoices[i];
            proof {
                lemma_filter_take_step(self.invoices@, inv_client_is(client_id@), i as int);
            }
            let matches_client = match &row.client_id {
                Some(cid) => str_eq(cid.as_str(), client_id.as_str()),
                None => false,
            };
            if matches_client {
                out.push(row.clone());
            }
            i = i + 1;
        }
        proof {
            lemma_take_full(self.invoices@);
            lemma_filter_sorted(self.invoices@, inv_client_is(client_id@), invoice_leq());
        }
        out
    }
}

} // verus!
