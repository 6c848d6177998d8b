//! Client commands.
//!
//! Clients carry auto-incrementing integer identifiers, list newest-first,
//! and are hard-deleted with no cascade check.

use vstd::prelude::*;

use crate::domain::Client;
use crate::error::CmdError;
use crate::ids::now_rfc3339;
use crate::seqs::lemma_all_rows_insert;
use crate::seqs::lemma_all_rows_update;
use crate::seqs::lemma_filter_all_rows;
use crate::seqs::lemma_filter_sorted;
use crate::seqs::lemma_filter_take_step;
use crate::seqs::lemma_filter_unique_by;
use crate::seqs::lemma_sorted_update;
use crate::seqs::lemma_take_full;
use crate::seqs::lemma_unique_insert;
use crate::seqs::lemma_unique_update_fresh;
use crate::seqs::sorted_by;
use crate::store::client_created_key;
use crate::store::client_id_below;
use crate::store::client_id_key;
use crate::store::client_leq;
use crate::store::client_row_wf;
use crate::store::first_not;
use crate::store::first_where;
use crate::store::lemma_first_not_from_props;
use crate::store::lemma_first_where_from_props;
use crate::store::lemma_sorted_insert_desc;
use crate::store::opt_str_view;
use crate::store::Store;
use crate::strcmp::seq_str_le;
use crate::strcmp::str_le;

verus! {

/// A client row whose identifier differs from `id`.
pub open spec fn client_id_ne(id: i64) -> spec_fn(Client) -> bool {
    |c: Client| c.id->0 != id
}

/// A client row with the given identifier.
pub open spec fn client_id_is(id: i64) -> spec_fn(Client) -> bool {
    |c: Client| c.id->0 == id
}

/// A client row created no earlier than `ts`.
pub open spec fn client_created_ge(ts: Seq<char>) -> spec_fn(Client) -> bool {
    |c: Client| seq_str_le(ts, opt_str_view(c.created_at))
}

impl Store {
    /// Lists every client, newest first.
    pub fn get_clients(&self) -> (r: Vec<Client>)
        requires
            self.wf(),
        ensures
            r@ == self.clients@,
            sorted_by(r@, client_leq()),
    {
        let n = self.clients.len();
        let mut out: Vec<Client> = Vec::new();
        let mut i: usize = 0;
        while i < n
            invariant
                i <= n,
                n == self.clients@.len(),
                out@ == self.clients@.take(i as int),
            decreases n - i,
        {
            out.push(self.clients[i].clone());
            proof {
                assert(self.clients@.take(i + 1) =~= self.clients@.take(i as int).push(
                    self.clients@[i as int],
                ));
            }
            i = i + 1;
        }
        proof {
            lemma_take_full(self.clients@);
        }
        out
    }

    /// Inserts a client row with the next auto-increment identifier and the
    /// given timestamp.  A full identifier space is a storage error.
    pub fn create_client_row(&mut self, client: Client, created_at: String) -> (r: Result<
        Client,
        CmdError,
    >)
        requires
            old(self).wf(),
        ensures
            final(self).wf(),
            final(self).users == old(self).users,
            final(self).products == old(self).products,
            final(self).categories == old(self).categories,
            final(self).subcategories == old(self).subcategories,
            final(self).invoices == old(self).invoices,
            final(self).invoice_items == old(self).invoice_items,
            final(self).deliveries == old(self).deliveries,
            final(self).delivery_items == old(self).delivery_items,
            final(self).warehouse_groups == old(self).warehouse_groups,
            final(self).warehouse_items == old(self).warehouse_items,
            final(self).suppliers == old(self).suppliers,
            final(self).next_supplier_id == old(self).next_supplier_id,
            final(self).supplier_sectors == old(self).supplier_sectors,
            final(self).supplier_products == old(self).supplier_products,
            final(self).countries == old(self).countries,
            match r {
                Ok(row) => {
                    &&& old(self).next_client_id < i64::MAX
                    &&& row == (Client {
                        id: Some(old(self).next_client_id),
                        created_at: Some(created_at),
                        ..client
                    })
                    &&& final(self).clients@ == old(self).clients@.insert(
                        first_not(old(self).clients@, client_created_ge(created_at@)),
                        row,
                    )
                    &&& final(self).next_client_id == old(self).next_client_id + 1
                },
                Err(e) => {
                    &&& *final(self) == *old(self)
                    &&& old(self).next_client_id == i64::MAX
                    &&& e matches CmdError::StorageError(m) && m@ == "database or disk is full"@
                },
            },
    {
        if self.next_client_id == i64::MAX {
            return Err(CmdError::StorageError(String::from_str("database or disk is full")));
        }
        let n = self.clients.len();
        let mut k: usize = 0;
        while k < n
            invariant
                k <= n,
                n == self.clients@.len(),
                self.wf(),
                forall|j: int|
                    0 <= j < k ==> seq_str_le(
                        created_at@,
                        opt_str_view((#[trigger] self.clients@[j]).created_at),
                    ),
            ensures
                k <= n,
                n == self.clients@.len(),
                forall|j: int|
                    0 <= j < k ==> seq_str_le(
                        created_at@,
                        opt_str_view((#[trigger] self.clients@[j]).created_at),
                    ),
                k < n ==> !seq_str_le(created_at@, opt_str_view(self.clients@[k as int].created_at)),
            decreases n - k,
        {
            let row = &self.clients[k];
            assert(client_row_wf()(self.clients@[k as int]));
            if !str_le(created_at.as_str(), row.created_at.as_ref().unwrap().as_str()) {
                break;
            }
            k = k + 1;
        }
        let id = self.next_client_id;
        let row = Client { id: Some(id), created_at: Some(created_at), ..client };
        let stored = row.clone();
        proof {
            lemma_first_not_from_props(
                self.clients@,
                client_created_ge(row.created_at->0@),
                k as int,
            );
            lemma_sorted_insert_desc(self.clients@, client_created_key(), stored, k as int);
            assert forall|i: int| 0 <= i < self.clients@.len() implies client_id_key()(
                #[trigger] self.clients@[i],
            ) != client_id_key()(stored) by {
                assert(client_id_below(self.next_client_id)(self.clients@[i]));
            }
            lemma_unique_insert(self.clients@, client_id_key(), stored, k as int);
            lemma_all_rows_insert(self.clients@, client_row_wf(), stored, k as int);
        }
        let ghost gstored = stored;
        self.clients.insert(k, stored);
        self.next_client_id = id + 1;
        proof {
            let t = self.clients@;
            assert forall|i: int| 0 <= i < t.len() implies client_id_below(self.next_client_id)(
                #[trigger] t[i],
            ) by {
                if i < k as int {
                    assert(client_id_below(id)(old(self).clients@[i]));
                    assert(t[i] == old(self).clients@[i]);
                } else if i == k as int {
                    assert(t[i] == gstored);
                } else {
                    assert(client_id_below(id)(old(self).clients@[i - 1]));
                    assert(t[i] == old(self).clients@[i - 1]);
                }
            }
        }
        Ok(row)
    }

    /// Creates a client, stamped with the current time.
    pub fn create_client(&mut self, client: Client) -> (r: Result<Client, CmdError>)
        requires
            old(self).wf(),
        ensures
            final(self).wf(),
            final(self).users == old(self).users,
            final(self).products == old(self).products,
            final(self).categories == old(self).categories,
            final(self).subcategories == old(self).subcategories,
            final(self).invoices == old(self).invoices,
            final(self).invoice_items == old(self).invoice_items,
            final(self).deliveries == old(self).deliveries,
            final(self).delivery_items == old(self).delivery_items,
            final(self).warehouse_groups == old(self).warehouse_groups,
            final(self).warehouse_items == old(self).warehouse_items,
            final(self).suppliers == old(self).suppliers,
            final(self).next_supplier_id == old(self).next_supplier_id,
            final(self).supplier_sectors == old(self).supplier_sectors,
            final(self).supplier_products == old(self).supplier_products,
            final(self).countries == old(self).countries,
            match r {
                Ok(row) => {
                    &&& row == (Client {
                        id: Some(old(self).next_client_id),
                        created_at: row.created_at,
                        ..client
                    })
                    &&& row.created_at is Some
                    &&& final(self).clients@ == old(self).clients@.insert(
                        first_not(
                            old(self).clients@,
                            client_created_ge(opt_str_view(row.created_at)),
                        ),
                        row,
                    )
                    &&& final(self).next_client_id == old(self).next_client_id + 1
                },
                Err(e) => {
                    &&& *final(self) == *old(self)
                    &&& old(self).next_client_id == i64::MAX
                },
            },
    {
        let created_at = now_rfc3339();
        self.create_client_row(client, created_at)
    }

    /// Updates the client carrying the record's identifier; a missing row is
    /// a no-op.  The stored row keeps its creation time; the record is handed
    /// back unchanged.
    pub fn update_client(&mut self, client: Client) -> (r: Result<Client, CmdError>)
        requires
            old(self).wf(),
        ensures
            final(self).wf(),
            final(self).users == old(self).users,
            final(self).next_client_id == old(self).next_client_id,
            final(self).products == old(self).products,
            final(self).categories == old(self).categories,
            final(self).subcategories == old(self).subcategories,
            final(self).invoices == old(self).invoices,
            final(self).invoice_items == old(self).invoice_items,
            final(self).deliveries == old(self).deliveries,
            final(self).delivery_items == old(self).delivery_items,
            final(self).warehouse_groups == old(self).warehouse_groups,
            final(self).warehouse_items == old(self).warehouse_items,
            final(self).suppliers == old(self).suppliers,
            final(self).next_supplier_id == old(self).next_supplier_id,
            final(self).supplier_sectors == old(self).supplier_sectors,
            final(self).supplier_products == old(self).supplier_products,
            final(self).countries == old(self).countries,
            match r {
                Ok(row) => {
                    &&& client.id is Some
                    &&& row == client
                    &&& ({
                        let idx = first_where(old(self).clients@, client_id_is(client.id->0));
                        if idx < old(self).clients@.len() {
                            final(self).clients@ == old(self).clients@.update(
                                idx,
                                (Client {
                                    id: Some(client.id->0),
                                    created_at: old(self).clients@[idx].created_at,
                                    ..client
                                }),
                            )
                        } else {
                            final(self).clients@ == old(self).clients@
                        }
                    })
                },
                Err(e) => {
                    &&& *final(self) == *old(self)
                    &&& client.id is None
                    &&& e == CmdError::MissingIdentifier
                },
            },
    {
        let id = match &client.id {
            Some(v) => *v,
            None => {
                return Err(CmdError::MissingIdentifier);
            },
        };
        let n = self.clients.len();
        let mut i: usize = 0;
        while i < n
            invariant
                i <= n,
                n == self.clients@.len(),
                self.wf(),
                forall|j: int| 0 <= j < i ==> (#[trigger] self.clients@[j]).id->0 != id,
            ensures
                i <= n,
                n == self.clients@.len(),
                forall|j: int| 0 <= j < i ==> (#[trigger] self.clients@[j]).id->0 != id,
                i < n ==> self.clients@[i as int].id->0 == id,
            decreases n - i,
        {
            let row = &self.clients[i];
            assert(client_row_wf()(self.clients@[i as int]));
            if row.id.unwrap() == id {
                break;
            }
            i = i + 1;
        }
        proof {
            lemma_first_where_from_props(self.clients@, client_id_is(id), i as int);
        }
        if i == n {
            return Ok(client);
        }
        let c2 = client.clone();
        let old_row = self.clients.remove(i);
        let stored = Client { id: Some(id), created_at: old_row.created_at, ..c2 };
        proof {
            let s = old(self).clients@;
            assert(s.remove(i as int).insert(i as int, stored) =~= s.update(i as int, stored));
            lemma_sorted_update(s, client_leq(), stored, i as int);
            assert forall|j: int| 0 <= j < s.len() && j != i implies client_id_key()(
                #[trigger] s[j],
            ) != client_id_key()(stored) by {
                if j < i {
                    assert(s[j].id->0 != id);
                } else {
                    assert(client_id_key()(s[i as int]) != client_id_key()(s[j]));
                }
            }
            lemma_unique_update_fresh(s, client_id_key(), stored, i as int);
            lemma_all_rows_update(s, client_row_wf(), stored, i as int);
            lemma_all_rows_update(s, client_id_below(self.next_client_id), stored, i as int);
        }
        self.clients.insert(i, stored);
        Ok(client)
    }

    /// Hard-deletes the client with the given identifier.
    pub fn delete_client(&mut self, id: i64) -> (r: Result<(), CmdError>)
        requires
            old(self).wf(),
        ensures
            final(self).wf(),
            r is Ok,
            final(self).users == old(self).users,
            final(self).next_client_id == old(self).next_client_id,
            final(self).products == old(self).products,
            final(self).categories == old(self).categories,
            final(self).subcategories == old(self).subcategories,
            final(self).invoices == old(self).invoices,
            final(self).invoice_items == old(self).invoice_items,
            final(self).deliveries == old(self).deliveries,
            final(self).delivery_items == old(self).delivery_items,
            final(self).warehouse_groups == old(self).warehouse_groups,
            final(self).warehouse_items == old(self).warehouse_items,
            final(self).suppliers == old(self).suppliers,
            final(self).next_supplier_id == old(self).next_supplier_id,
            final(self).supplier_sectors == old(self).supplier_sectors,
            final(self).supplier_products == old(self).supplier_products,
            final(self).countries == old(self).countries,
            final(self).clients@ == old(self).clients@.filter(client_id_ne(id)),
    {
        let n = self.clients.len();
        let mut kept: Vec<Client> = Vec::new();
        let mut i: usize = 0;
        while i < n
            invariant
                i <= n,
                n == self.clients@.len(),
                self.wf(),
                kept@ == self.clients@.take(i as int).filter(client_id_ne(id)),
            decreases n - i,
        {
            let row = &self.clients[i];
            assert(client_row_wf()(self.clients@[i as int]));
            proof {
                lemma_filter_take_step(self.clients@, client_id_ne(id), i as int);
            }
            if row.id.unwrap() != id {
                kept.push(row.clone());
            }
            i = i + 1;
        }
        proof {
            lemma_take_full(self.clients@);
            lemma_filter_all_rows(self.clients@, client_id_ne(id), client_row_wf());
            lemma_filter_all_rows(
                self.clients@,
                client_id_ne(id),
                client_id_below(self.next_client_id),
            );
            lemma_filter_unique_by(self.clients@, client_id_ne(id), client_id_key());
            lemma_filter_sorted(self.clients@, client_id_ne(id), client_leq());
        }
        self.clients = kept;
        Ok(())
    }
}

} // verus!
