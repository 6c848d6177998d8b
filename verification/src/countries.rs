//! The country reference table.
//!
//! Countries are seeded once at bootstrap and only ever listed; the listing
//! order is ascending by name.

use vstd::prelude::*;

use crate::domain::Country;
use crate::error::CmdError;
use crate::seqs::lemma_all_rows_insert;
use crate::seqs::lemma_take_full;
use crate::seqs::lemma_unique_insert;
use crate::seqs::sorted_by;
use crate::store::country_id_key;
use crate::store::country_leq;
use crate::store::country_name_key;
use crate::store::country_row_wf;
use crate::store::first_not;
use crate::store::lemma_first_not_from_props;
use crate::store::lemma_sorted_insert_asc;
use crate::store::opt_str_view;
use crate::store::Store;
use crate::strcmp::seq_str_le;
use crate::strcmp::str_eq;
use crate::strcmp::str_le;

verus! {

/// A country row whose name is at most `n`, in lexicographic order.
pub open spec fn country_name_le(n: Seq<char>) -> spec_fn(Country) -> bool {
    |c: Country| seq_str_le(c.name@, n)
}

impl Store {
    /// Lists every country, in ascending name order.
    pub fn get_countries(&self) -> (r: Vec<Country>)
        requires
            self.wf(),
        ensures
            r@ == self.countries@,
            sorted_by(r@, country_leq()),
    {
        let n = self.countries.len();
        let mut out: Vec<Country> = Vec::new();
        let mut i: usize = 0;
        while i < n
            invariant
                i <= n,
                n == self.countries@.len(),
                out@ == self.countries@.take(i as int),
            decreases n - i,
        {
            out.push(self.countries[i].clone());
            proof {
                assert(self.countries@.take(i + 1) =~= self.countries@.take(i as int).push(
                    self.countries@[i as int],
                ));
            }
            i = i + 1;
        }
        proof {
            lemma_take_full(self.countries@);
        }
        out
    }

    /// Inserts a country row; used by the bootstrap seed.  Mirrors the
    /// engine's unique checks on the identifier and the name.
    pub fn create_country_row(&mut self, id: String, name: String, code: String, created_at: String)
        -> (r: Result<(), CmdError>)
        requires
            old(self).wf(),
        ensures
            final(self).wf(),
            final(self).users == old(self).users,
            final(self).clients == old(self).clients,
            final(self).next_client_id == old(self).next_client_id,
            final(self).products == old(self).products,
            final(self).categories == old(self).categories,
            final(self).subcategories == old(self).subcategories,
            final(self).invoices == old(self).invoices,
            final(self).invoice_items == old(self).invoice_items,
            final(self).deliveries == old(self).deliveries,
            final(self).delivery_items == old(self).delivery_items,
            final(self).warehouse_groups == old(self).warehouse_groups,
            final(self).warehouse_items == old(self).warehouse_items,
            final(self).suppliers == old(self).suppliers,
            final(self).next_supplier_id == old(self).next_supplier_id,
            final(self).supplier_sectors == old(self).supplier_sectors,
            final(self).supplier_products == old(self).supplier_products,
            match r {
                Ok(u) => {
                    &&& forall|i: int|
                        0 <= i < old(self).countries@.len() ==> opt_str_view(
                            (#[trigger] old(self).countries@[i]).id,
                        ) != id@
                    &&& forall|i: int|
                        0 <= i < old(self).countries@.len() ==> (#[trigger] old(
                            self,
                        ).countries@[i]).name@ != name@
                    &&& 0 <= first_not(old(self).countries@, country_name_le(name@))
                        <= old(self).countries@.len()
                    &&& final(self).countries@.len() == old(self).countries@.len() + 1
                    &&& final(self).countries@ == old(self).countries@.insert(
                        first_not(old(self).countries@, country_name_le(name@)),
                        (Country {
                            id: Some(id),
                            name: name,
                            code: Some(code),
                            created_at: Some(created_at),
                        }),
                    )
                },
                Err(e) => {
                    &&& *final(self) == *old(self)
                    &&& e matches CmdError::StorageError(m)
                    &&& (exists|i: int|
                        0 <= i < old(self).countries@.len() && opt_str_view(
                            (#[trigger] old(self).countries@[i]).id,
                        ) == id@) || (exists|i: int|
                        0 <= i < old(self).countries@.len() && (#[trigger] old(
                            self,
                        ).countries@[i]).name@ == name@)
                },
            },
    {
        let n = self.countries.len();
        let mut i: usize = 0;
        while i < n
            invariant
                i <= n,
                n == self.countries@.len(),
                self.wf(),
                forall|j: int|
                    0 <= j < i ==> opt_str_view((#[trigger] self.countries@[j]).id) != id@,
            decreases n - i,
        {
            let row = &self.countries[i];
            assert(country_row_wf()(self.countries@[i as int]));
            if str_eq(row.id.as_ref().unwrap().as_str(), id.as_str()) {
                return Err(
                    CmdError::StorageError(
                        String::from_str("UNIQUE constraint failed: countries.id"),
                    ),
                );
            }
            i = i + 1;
        }
        let mut i: usize = 0;
        while i < n
            invariant
                i <= n,
                n == self.countries@.len(),
                self.wf(),
                forall|j: int| 0 <= j < i ==> (#[trigger] self.countries@[j]).name@ != name@,
                forall|j: int|
                    0 <= j < n ==> opt_str_view((#[trigger] self.countries@[j]).id) != id@,
            decreases n - i,
        {
            let row = &self.countries[i];
            if str_eq(row.name.as_str(), name.as_str()) {
                return Err(
                    CmdError::StorageError(
                        String::from_str("UNIQUE constraint failed: countries.name"),
                    ),
                );
            }
            i = i + 1;
        }
        let mut k: usize = 0;
        while k < n
            invariant
                k <= n,
                n == self.countries@.len(),
                self.wf(),
                forall|j: int| 0 <= j < k ==> seq_str_le((#[trigger] self.countries@[j]).name@, name@),
            ensures
                k <= n,
                n == self.countries@.len(),
                forall|j: int| 0 <= j < k ==> seq_str_le((#[trigger] self.countries@[j]).name@, name@),
                k < n ==> !seq_str_le(self.countries@[k as int].name@, name@),
            decreases n - k,
        {
            if !str_le(self.countries[k].name.as_str(), name.as_str()) {
                break;
            }
            k = k + 1;
        }
        let stored = Country { id: Some(id), name: name, code: Some(code), created_at: Some(created_at) };
        proof {
            lemma_first_not_from_props(self.countries@, country_name_le(stored.name@), k as int);
            lemma_sorted_insert_asc(self.countries@, country_name_key(), stored, k as int);
            lemma_unique_insert(self.countries@, country_id_key(), stored, k as int);
            lemma_unique_insert(self.countries@, country_name_key(), stored, k as int);
            lemma_all_rows_insert(self.countries@, country_row_wf(), stored, k as int);
        }
        self.countries.insert(k, stored);
        Ok(())
    }
}

} // verus!
