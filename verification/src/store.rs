//! The in-memory relational store.
//!
//! [`Store`] holds every table of the schema as a vector of rows.  Its
//! well-formedness predicate [`Store::wf`] carries the schema's constraints:
//! identifiers present and unique, the unique text columns unique, and each
//! table kept in the order its listing command reports — by `created_at`
//! descending for the document-like tables, by `name` ascending for the
//! reference tables.  Line-item tables stay in insertion order.

use vstd::prelude::*;

use crate::domain::Category;
use crate::domain::Client;
use crate::domain::Country;
use crate::domain::Delivery;
use crate::domain::DeliveryItem;
use crate::domain::Invoice;
use crate::domain::InvoiceItem;
use crate::domain::Product;
use crate::domain::Subcategory;
use crate::domain::Supplier;
use crate::domain::SupplierProduct;
use crate::domain::SupplierSector;
use crate::domain::UserRow;
use crate::domain::WarehouseGroup;
use crate::domain::WarehouseItem;
use crate::seqs::all_rows;
use crate::seqs::sorted_by;
use crate::seqs::unique_by;
use crate::strcmp::seq_str_le;

verus! {

/// The view of an optional string that is known to be present.
pub open spec fn opt_str_view(o: Option<String>) -> Seq<char> {
    o->0@
}

// ---------------------------------------------------------------------------
// Per-table keys and orders
// ---------------------------------------------------------------------------

pub open spec fn user_id_key() -> spec_fn(UserRow) -> Seq<char> {
    |u: UserRow| u.id@
}

pub open spec fn user_name_key() -> spec_fn(UserRow) -> Seq<char> {
    |u: UserRow| u.username@
}

pub open spec fn client_id_key() -> spec_fn(Client) -> int {
    |c: Client| c.id->0 as int
}

pub open spec fn client_leq() -> spec_fn(Client, Client) -> bool {
    |a: Client, b: Client| seq_str_le(opt_str_view(b.created_at), opt_str_view(a.created_at))
}

pub open spec fn client_row_wf() -> spec_fn(Client) -> bool {
    |c: Client| c.id is Some && 1 <= c.id->0 && c.created_at is Some
}

pub open spec fn product_id_key() -> spec_fn(Product) -> Seq<char> {
    |p: Product| opt_str_view(p.id)
}

pub open spec fn product_code_key() -> spec_fn(Product) -> Seq<char> {
    |p: Product| p.code@
}

pub open spec fn product_leq() -> spec_fn(Product, Product) -> bool {
    |a: Product, b: Product| seq_str_le(opt_str_view(b.created_at), opt_str_view(a.created_at))
}

pub open spec fn product_row_wf() -> spec_fn(Product) -> bool {
    |p: Product| p.id is Some && p.created_at is Some && p.updated_at is Some && p.is_active is Some
}

pub open spec fn category_id_key() -> spec_fn(Category) -> Seq<char> {
    |c: Category| opt_str_view(c.id)
}

pub open spec fn category_name_key() -> spec_fn(Category) -> Seq<char> {
    |c: Category| c.name@
}

pub open spec fn category_leq() -> spec_fn(Category, Category) -> bool {
    |a: Category, b: Category| seq_str_le(a.name@, b.name@)
}

pub open spec fn category_row_wf() -> spec_fn(Category) -> bool {
    |c: Category| c.id is Some && c.created_at is Some
}

pub open spec fn subcategory_id_key() -> spec_fn(Subcategory) -> Seq<char> {
    |s: Subcategory| opt_str_view(s.id)
}

pub open spec fn subcategory_name_key() -> spec_fn(Subcategory) -> Seq<char> {
    |s: Subcategory| s.name@
}

pub open spec fn subcategory_leq() -> spec_fn(Subcategory, Subcategory) -> bool {
    |a: Subcategory, b: Subcategory| seq_str_le(a.name@, b.name@)
}

pub open spec fn subcategory_row_wf() -> spec_fn(Subcategory) -> bool {
    |s: Subcategory| s.id is Some && s.created_at is Some
}

pub open spec fn invoice_id_key() -> spec_fn(Invoice) -> Seq<char> {
    |i: Invoice| opt_str_view(i.id)
}

pub open spec fn invoice_number_key() -> spec_fn(Invoice) -> Seq<char> {
    |i: Invoice| i.invoice_number@
}

pub open spec fn invoice_leq() -> spec_fn(Invoice, Invoice) -> bool {
    |a: Invoice, b: Invoice| seq_str_le(opt_str_view(b.created_at), opt_str_view(a.created_at))
}

pub open spec fn invoice_row_wf() -> spec_fn(Invoice) -> bool {
    |i: Invoice| i.id is Some && i.created_at is Some
}

pub open spec fn invoice_item_id_key() -> spec_fn(InvoiceItem) -> Seq<char> {
    |i: InvoiceItem| opt_str_view(i.id)
}

pub open spec fn invoice_item_row_wf() -> spec_fn(InvoiceItem) -> bool {
    |i: InvoiceItem| i.id is Some
}

pub open spec fn delivery_id_key() -> spec_fn(Delivery) -> Seq<char> {
    |d: Delivery| opt_str_view(d.id)
}

pub open spec fn delivery_number_key() -> spec_fn(Delivery) -> Seq<char> {
    |d: Delivery| d.delivery_number@
}

pub open spec fn delivery_leq() -> spec_fn(Delivery, Delivery) -> bool {
    |a: Delivery, b: Delivery| seq_str_le(opt_str_view(b.created_at), opt_str_view(a.created_at))
}

pub open spec fn delivery_row_wf() -> spec_fn(Delivery) -> bool {
    |d: Delivery| d.id is Some && d.created_at is Some
}

pub open spec fn delivery_item_id_key() -> spec_fn(DeliveryItem) -> Seq<char> {
    |i: DeliveryItem| opt_str_view(i.id)
}

pub open spec fn delivery_item_row_wf() -> spec_fn(DeliveryItem) -> bool {
    |i: DeliveryItem| i.id is Some
}

pub open spec fn warehouse_group_id_key() -> spec_fn(WarehouseGroup) -> Seq<char> {
    |g: WarehouseGroup| opt_str_view(g.id)
}

pub open spec fn warehouse_group_leq() -> spec_fn(WarehouseGroup, WarehouseGroup) -> bool {
    |a: WarehouseGroup, b: WarehouseGroup|
        seq_str_le(opt_str_view(b.created_at), opt_str_view(a.created_at))
}

pub open spec fn warehouse_group_row_wf() -> spec_fn(WarehouseGroup) -> bool {
    |g: WarehouseGroup| g.id is Some && g.created_at is Some
}

pub open spec fn warehouse_item_id_key() -> spec_fn(WarehouseItem) -> Seq<char> {
    |i: WarehouseItem| opt_str_view(i.id)
}

pub open spec fn warehouse_item_row_wf() -> spec_fn(WarehouseItem) -> bool {
    |i: WarehouseItem| i.id is Some && i.created_at is Some
}

pub open spec fn supplier_id_key() -> spec_fn(Supplier) -> int {
    |s: Supplier| s.id->0 as int
}

pub open spec fn supplier_leq() -> spec_fn(Supplier, Supplier) -> bool {
    |a: Supplier, b: Supplier| seq_str_le(opt_str_view(b.created_at), opt_str_view(a.created_at))
}

pub open spec fn supplier_row_wf() -> spec_fn(Supplier) -> bool {
    |s: Supplier| s.id is Some && 1 <= s.id->0 && s.is_active is Some && s.created_at is Some
}

pub open spec fn sector_id_key() -> spec_fn(SupplierSector) -> Seq<char> {
    |s: SupplierSector| opt_str_view(s.id)
}

pub open spec fn sector_name_key() -> spec_fn(SupplierSector) -> Seq<char> {
    |s: SupplierSector| s.name@
}

pub open spec fn sector_leq() -> spec_fn(SupplierSector, SupplierSector) -> bool {
    |a: SupplierSector, b: SupplierSector| seq_str_le(a.name@, b.name@)
}

pub open spec fn sector_row_wf() -> spec_fn(SupplierSector) -> bool {
    |s: SupplierSector| s.id is Some && s.created_at is Some
}

pub open spec fn supplier_product_id_key() -> spec_fn(SupplierProduct) -> Seq<char> {
    |p: SupplierProduct| opt_str_view(p.id)
}

pub open spec fn supplier_product_name_key() -> spec_fn(SupplierProduct) -> Seq<char> {
    |p: SupplierProduct| p.name@
}

pub open spec fn supplier_product_leq() -> spec_fn(SupplierProduct, SupplierProduct) -> bool {
    |a: SupplierProduct, b: SupplierProduct| seq_str_le(a.name@, b.name@)
}

pub open spec fn supplier_product_row_wf() -> spec_fn(SupplierProduct) -> bool {
    |p: SupplierProduct| p.id is Some && p.created_at is Some
}

pub open spec fn country_id_key() -> spec_fn(Country) -> Seq<char> {
    |c: Country| opt_str_view(c.id)
}

pub open spec fn country_name_key() -> spec_fn(Country) -> Seq<char> {
    |c: Country| c.name@
}

pub open spec fn country_leq() -> spec_fn(Country, Country) -> bool {
    |a: Country, b: Country| seq_str_le(a.name@, b.name@)
}

pub open spec fn country_row_wf() -> spec_fn(Country) -> bool {
    |c: Country| c.id is Some && c.created_at is Some
}

// Creation-timestamp keys of the tables listed newest-first.

pub open spec fn client_created_key() -> spec_fn(Client) -> Seq<char> {
    |c: Client| opt_str_view(c.created_at)
}

pub open spec fn product_created_key() -> spec_fn(Product) -> Seq<char> {
    |p: Product| opt_str_view(p.created_at)
}

pub open spec fn invoice_created_key() -> spec_fn(Invoice) -> Seq<char> {
    |i: Invoice| opt_str_view(i.created_at)
}

pub open spec fn delivery_created_key() -> spec_fn(Delivery) -> Seq<char> {
    |d: Delivery| opt_str_view(d.created_at)
}

pub open spec fn warehouse_group_created_key() -> spec_fn(WarehouseGroup) -> Seq<char> {
    |g: WarehouseGroup| opt_str_view(g.created_at)
}

pub open spec fn supplier_created_key() -> spec_fn(Supplier) -> Seq<char> {
    |s: Supplier| opt_str_view(s.created_at)
}

// ---------------------------------------------------------------------------
// The store
// ---------------------------------------------------------------------------

/// All tables of the database, plus the auto-increment cursors of the two
/// integer-keyed tables.
pub struct Store {
    pub users: Vec<UserRow>,
    pub clients: Vec<Client>,
    pub next_client_id: i64,
    pub products: Vec<Product>,
    pub categories: Vec<Category>,
    pub subcategories: Vec<Subcategory>,
    pub invoices: Vec<Invoice>,
    pub invoice_items: Vec<InvoiceItem>,
    pub deliveries: Vec<Delivery>,
    pub delivery_items: Vec<DeliveryItem>,
    pub warehouse_groups: Vec<WarehouseGroup>,
    pub warehouse_items: Vec<WarehouseItem>,
    pub suppliers: Vec<Supplier>,
    pub next_supplier_id: i64,
    pub supplier_sectors: Vec<SupplierSector>,
    pub supplier_products: Vec<SupplierProduct>,
    pub countries: Vec<Country>,
}

pub open spec fn users_wf(s: Seq<UserRow>) -> bool {
    &&& unique_by(s, user_id_key())
    &&& unique_by(s, user_name_key())
}

/// A client row whose identifier lies below the auto-increment cursor.
pub open spec fn client_id_below(n: i64) -> spec_fn(Client) -> bool {
    |c: Client| c.id->0 < n
}

pub open spec fn clients_wf(s: Seq<Client>, next_id: i64) -> bool {
    &&& all_rows(s, client_row_wf())
    &&& all_rows(s, client_id_below(next_id))
    &&& unique_by(s, client_id_key())
    &&& sorted_by(s, client_leq())
}

pub open spec fn products_wf(s: Seq<Product>) -> bool {
    &&& all_rows(s, product_row_wf())
    &&& unique_by(s, product_id_key())
    &&& unique_by(s, product_code_key())
    &&& sorted_by(s, product_leq())
}

pub open spec fn categories_wf(s: Seq<Category>) -> bool {
    &&& all_rows(s, category_row_wf())
    &&& unique_by(s, category_id_key())
    &&& unique_by(s, category_name_key())
    &&& sorted_by(s, category_leq())
}

pub open spec fn subcategories_wf(s: Seq<Subcategory>) -> bool {
    &&& all_rows(s, subcategory_row_wf())
    &&& unique_by(s, subcategory_id_key())
    &&& sorted_by(s, subcategory_leq())
}

pub open spec fn invoices_wf(s: Seq<Invoice>) -> bool {
    &&& all_rows(s, invoice_row_wf())
    &&& unique_by(s, invoice_id_key())
    &&& unique_by(s, invoice_number_key())
    &&& sorted_by(s, invoice_leq())
}

pub open spec fn invoice_items_wf(s: Seq<InvoiceItem>) -> bool {
    &&& all_rows(s, invoice_item_row_wf())
    &&& unique_by(s, invoice_item_id_key())
}

pub open spec fn deliveries_wf(s: Seq<Delivery>) -> bool {
    &&& all_rows(s, delivery_row_wf())
    &&& unique_by(s, delivery_id_key())
    &&& unique_by(s, delivery_number_key())
    &&& sorted_by(s, delivery_leq())
}

pub open spec fn delivery_items_wf(s: Seq<DeliveryItem>) -> bool {
    &&& all_rows(s, delivery_item_row_wf())
    &&& unique_by(s, delivery_item_id_key())
}

pub open spec fn warehouse_groups_wf(s: Seq<WarehouseGroup>) -> bool {
    &&& all_rows(s, warehouse_group_row_wf())
    &&& unique_by(s, warehouse_group_id_key())
    &&& sorted_by(s, warehouse_group_leq())
}

pub open spec fn warehouse_items_wf(s: Seq<WarehouseItem>) -> bool {
    &&& all_rows(s, warehouse_item_row_wf())
    &&& unique_by(s, warehouse_item_id_key())
}

/// A supplier row whose identifier lies below the auto-increment cursor.
pub open spec fn supplier_id_below(n: i64) -> spec_fn(Supplier) -> bool {
    |s: Supplier| s.id->0 < n
}

pub open spec fn suppliers_wf(s: Seq<Supplier>, next_id: i64) -> bool {
    &&& all_rows(s, supplier_row_wf())
    &&& all_rows(s, supplier_id_below(next_id))
    &&& unique_by(s, supplier_id_key())
    &&& sorted_by(s, supplier_leq())
}

pub open spec fn sectors_wf(s: Seq<SupplierSector>) -> bool {
    &&& all_rows(s, sector_row_wf())
    &&& unique_by(s, sector_id_key())
    &&& unique_by(s, sector_name_key())
    &&& sorted_by(s, sector_leq())
}

pub open spec fn supplier_products_wf(s: Seq<SupplierProduct>) -> bool {
    &&& all_rows(s, supplier_product_row_wf())
    &&& unique_by(s, supplier_product_id_key())
    &&& sorted_by(s, supplier_product_leq())
}

pub open spec fn countries_wf(s: Seq<Country>) -> bool {
    &&& all_rows(s, country_row_wf())
    &&& unique_by(s, country_id_key())
    &&& unique_by(s, country_name_key())
    &&& sorted_by(s, country_leq())
}

impl Store {
    /// The schema's invariants, over every table.
    pub open spec fn wf(&self) -> bool {
        &&& users_wf(self.users@)
        &&& clients_wf(self.clients@, self.next_client_id)
        &&& 1 <= self.next_client_id
        &&& products_wf(self.products@)
        &&& categories_wf(self.categories@)
        &&& subcategories_wf(self.subcategories@)
        &&& invoices_wf(self.invoices@)
        &&& invoice_items_wf(self.invoice_items@)
        &&& deliveries_wf(self.deliveries@)
        &&& delivery_items_wf(self.delivery_items@)
        &&& warehouse_groups_wf(self.warehouse_groups@)
        &&& warehouse_items_wf(self.warehouse_items@)
        &&& suppliers_wf(self.suppliers@, self.next_supplier_id)
        &&& 1 <= self.next_supplier_id
        &&& sectors_wf(self.supplier_sectors@)
        &&& supplier_products_wf(self.supplier_products@)
        &&& countries_wf(self.countries@)
    }

    /// An empty database, as it looks before the first bootstrap.
    pub fn new() -> (s: Store)
        ensures
            s.wf(),
            s.users@.len() == 0,
            s.clients@.len() == 0,
            s.next_client_id == 1,
            s.products@.len() == 0,
            s.categories@.len() == 0,
            s.subcategories@.len() == 0,
            s.invoices@.len() == 0,
            s.invoice_items@.len() == 0,
            s.deliveries@.len() == 0,
            s.delivery_items@.len() == 0,
            s.warehouse_groups@.len() == 0,
            s.warehouse_items@.len() == 0,
            s.suppliers@.len() == 0,
            s.next_supplier_id == 1,
            s.supplier_sectors@.len() == 0,
            s.supplier_products@.len() == 0,
            s.countries@.len() == 0,
    {
        Store {
            users: Vec::new(),
            clients: Vec::new(),
            next_client_id: 1,
            products: Vec::new(),
            categories: Vec::new(),
            subcategories: Vec::new(),
            invoices: Vec::new(),
            invoice_items: Vec::new(),
            deliveries: Vec::new(),
            delivery_items: Vec::new(),
            warehouse_groups: Vec::new(),
            warehouse_items: Vec::new(),
            suppliers: Vec::new(),
            next_supplier_id: 1,
            supplier_sectors: Vec::new(),
            supplier_products: Vec::new(),
            countries: Vec::new(),
        }
    }
}

// ---------------------------------------------------------------------------
// Insertion-position lemmas
// ---------------------------------------------------------------------------

/// The first index at which `keep` fails, scanning from the front.
pub open spec fn first_not<A>(s: Seq<A>, keep: spec_fn(A) -> bool) -> int
    decreases s.len(),
{
    if s.len() == 0 {
        0
    } else if keep(s[0]) {
        1 + first_not(s.skip(1), keep)
    } else {
        0
    }
}

/// `first_not` always lands inside the sequence or just past its end.
pub proof fn lemma_first_not_bounds<A>(s: Seq<A>, keep: spec_fn(A) -> bool)
    ensures
        0 <= first_not(s, keep) <= s.len(),
    decreases s.len(),
{
    if s.len() != 0 && keep(s[0]) {
        lemma_first_not_bounds(s.skip(1), keep);
    }
}

/// The first index at which `pred` holds, or the length if it never does.
pub open spec fn first_where<A>(s: Seq<A>, pred: spec_fn(A) -> bool) -> int
    decreases s.len(),
{
    if s.len() == 0 {
        0
    } else if pred(s[0]) {
        0
    } else {
        1 + first_where(s.skip(1), pred)
    }
}

/// A scan that skipped a prefix and stopped at the first hit computed
/// `first_where`.
pub proof fn lemma_first_where_from_props<A>(s: Seq<A>, pred: spec_fn(A) -> bool, k: int)
    requires
        0 <= k <= s.len(),
        forall|j: int| 0 <= j < k ==> !pred(#[trigger] s[j]),
        k < s.len() ==> pred(s[k]),
    ensures
        first_where(s, pred) == k,
    decreases s.len(),
{
    if s.len() == 0 {
    } else if k == 0 {
    } else {
        assert(!pred(s[0]));
        let t = s.skip(1);
        assert(forall|j: int| 0 <= j < k - 1 ==> t[j] == s[j + 1]);
        lemma_first_where_from_props(t, pred, k - 1);
    }
}

/// A scan that kept a prefix and stopped at the first failure computed
/// `first_not`.
pub proof fn lemma_first_not_from_props<A>(s: Seq<A>, keep: spec_fn(A) -> bool, k: int)
    requires
        0 <= k <= s.len(),
        forall|j: int| 0 <= j < k ==> keep(#[trigger] s[j]),
        k < s.len() ==> !keep(s[k]),
    ensures
        first_not(s, keep) == k,
    decreases s.len(),
{
    if s.len() == 0 {
    } else if k == 0 {
    } else {
        assert(keep(s[0]));
        let t = s.skip(1);
        assert(forall|j: int| 0 <= j < k - 1 ==> t[j] == s[j + 1]);
        lemma_first_not_from_props(t, keep, k - 1);
    }
}

/// Inserting at a position bounded on both sides keeps a sequence sorted,
/// for an order that is total and transitive on strings (by descending key).
pub proof fn lemma_sorted_insert_desc<A>(s: Seq<A>, key: spec_fn(A) -> Seq<char>, x: A, k: int)
    requires
        sorted_by(s, |a: A, b: A| seq_str_le(key(b), key(a))),
        0 <= k <= s.len(),
        forall|j: int| 0 <= j < k ==> seq_str_le(key(x), key(#[trigger] s[j])),
        k < s.len() ==> !seq_str_le(key(x), key(s[k])),
    ensures
        sorted_by(s.insert(k, x), |a: A, b: A| seq_str_le(key(b), key(a))),
{
    let leq = |a: A, b: A| seq_str_le(key(b), key(a));
    let t = s.insert(k, x);
    if k < s.len() {
        crate::strcmp::lemma_str_le_total(key(x), key(s[k]));
    }
    assert forall|i: int, j: int| 0 <= i < j < t.len() implies leq(#[trigger] t[i], #[trigger] t[j]) by {
        if i < k && j < k {
            assert(t[i] == s[i] && t[j] == s[j]);
        } else if i < k && j == k {
            assert(t[i] == s[i] && t[j] == x);
        } else if i < k && j > k {
            assert(t[i] == s[i] && t[j] == s[j - 1]);
        } else if i == k && j > k {
            assert(t[i] == x && t[j] == s[j - 1]);
            assert(seq_str_le(key(s[k]), key(x)));
            if j - 1 > k {
                assert(leq(s[k], s[j - 1]));
                crate::strcmp::lemma_str_le_trans(key(s[j - 1]), key(s[k]), key(x));
            }
        } else {
            assert(t[i] == s[i - 1] && t[j] == s[j - 1]);
        }
    }
}

/// The ascending twin of `lemma_sorted_insert_desc`.
pub proof fn lemma_sorted_insert_asc<A>(s: Seq<A>, key: spec_fn(A) -> Seq<char>, x: A, k: int)
    requires
        sorted_by(s, |a: A, b: A| seq_str_le(key(a), key(b))),
        0 <= k <= s.len(),
        forall|j: int| 0 <= j < k ==> seq_str_le(key(#[trigger] s[j]), key(x)),
        k < s.len() ==> !seq_str_le(key(s[k]), key(x)),
    ensures
        sorted_by(s.insert(k, x), |a: A, b: A| seq_str_le(key(a), key(b))),
{
    let leq = |a: A, b: A| seq_str_le(key(a), key(b));
    let t = s.insert(k, x);
    if k < s.len() {
        crate::strcmp::lemma_str_le_total(key(s[k]), key(x));
    }
    assert forall|i: int, j: int| 0 <= i < j < t.len() implies leq(#[trigger] t[i], #[trigger] t[j]) by {
        if i < k && j < k {
            assert(t[i] == s[i] && t[j] == s[j]);
        } else if i < k && j == k {
            assert(t[i] == s[i] && t[j] == x);
        } else if i < k && j > k {
            assert(t[i] == s[i] && t[j] == s[j - 1]);
        } else if i == k && j > k {
            assert(t[i] == x && t[j] == s[j - 1]);
            assert(seq_str_le(key(x), key(s[k])));
            if j - 1 > k {
                assert(leq(s[k], s[j - 1]));
                crate::strcmp::lemma_str_le_trans(key(x), key(s[k]), key(s[j - 1]));
            }
        } else {
            assert(t[i] == s[i - 1] && t[j] == s[j - 1]);
        }
    }
}

} // verus!
