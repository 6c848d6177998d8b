//! Cross-command laws of the store.
//!
//! Each proof function here states a guarantee that spans more than one
//! command, over the same spec functions the commands' own contracts use:
//! the cascades really clear the dependent rows, a soft-deleted product
//! leaves the listing but keeps answering its code, and the seeded
//! administrator can log in.

use vstd::prelude::*;

use crate::auth::bcrypt_matches;
use crate::auth::user_with;
use crate::categories::subcat_in;
use crate::categories::subcat_not_in;
use crate::domain::InvoiceItem;
use crate::domain::Product;
use crate::domain::Subcategory;
use crate::invoices::item_in;
use crate::invoices::item_not_in;
use crate::products::product_active;
use crate::products::product_id_is;
use crate::products::product_with_code;
use crate::seqs::lemma_filter_members;
use crate::seqs::lemma_filter_none;
use crate::seqs::lemma_unique_update_fresh;
use crate::seqs::unique_by;
use crate::store::first_where;
use crate::store::opt_str_view;
use crate::store::product_code_key;
use crate::store::product_id_key;
use crate::store::Store;

verus! {

/// After a category is deleted, no subcategory of it remains: the rows the
/// cascade keeps, filtered back down to the deleted category, are none.
pub proof fn lemma_category_cascade_clears(subs: Seq<Subcategory>, cat: Seq<char>)
    ensures
        subs.filter(subcat_not_in(cat)).filter(subcat_in(cat)) == Seq::<Subcategory>::empty(),
{
    let kept = subs.filter(subcat_not_in(cat));
    assert forall|k: int| 0 <= k < kept.len() implies !subcat_in(cat)(#[trigger] kept[k]) by {
        subs.lemma_filter_pred(subcat_not_in(cat), k);
    }
    lemma_filter_none(kept, subcat_in(cat));
}

/// After an invoice is deleted, no line item of it remains.
pub proof fn lemma_invoice_cascade_clears(items: Seq<InvoiceItem>, inv: Seq<char>)
    ensures
        items.filter(item_not_in(inv)).filter(item_in(inv)) == Seq::<InvoiceItem>::empty(),
{
    let kept = items.filter(item_not_in(inv));
    assert forall|k: int| 0 <= k < kept.len() implies !item_in(inv)(#[trigger] kept[k]) by {
        items.lemma_filter_pred(item_not_in(inv), k);
    }
    lemma_filter_none(kept, item_in(inv));
}

/// The first index at which `pred` holds is in range, and it is a hit when it
/// is inside the sequence.
pub proof fn lemma_first_where_props<A>(s: Seq<A>, pred: spec_fn(A) -> bool)
    ensures
        0 <= first_where(s, pred) <= s.len(),
        first_where(s, pred) < s.len() ==> pred(s[first_where(s, pred)]),
    decreases s.len(),
{
    if s.len() != 0 && !pred(s[0]) {
        lemma_first_where_props(s.skip(1), pred);
        if first_where(s.skip(1), pred) < s.skip(1).len() {
            assert(s.skip(1)[first_where(s.skip(1), pred)] == s[1 + first_where(s.skip(1), pred)]);
        }
    }
}

/// On a table with unique codes, the by-code lookup finds exactly the row
/// that holds the code.
pub proof fn lemma_with_code_unique(s: Seq<Product>, idx: int)
    requires
        unique_by(s, product_code_key()),
        0 <= idx < s.len(),
    ensures
        product_with_code(s, s[idx].code@) == Some(s[idx]),
    decreases s.len(),
{
    if idx > 0 {
        assert(product_code_key()(s[0]) != product_code_key()(s[idx]));
        let t = s.skip(1);
        assert(unique_by(t, product_code_key())) by {
            assert(forall|i: int, j: int|
                0 <= i < j < t.len() ==> t[i] == s[i + 1] && t[j] == s[j + 1]);
        }
        lemma_with_code_unique(t, idx - 1);
        assert(t[idx - 1] == s[idx]);
    }
}

/// The soft-delete law: after a product's active flag is cleared, the active
/// listing holds no row with its identifier, yet the by-code lookup still
/// answers with the retained row, now inactive.
pub proof fn lemma_soft_delete_product(s: Seq<Product>, id: Seq<char>)
    requires
        unique_by(s, product_id_key()),
        unique_by(s, product_code_key()),
        first_where(s, product_id_is(id)) < s.len(),
    ensures
        ({
            let idx = first_where(s, product_id_is(id));
            let t = s.update(idx, (Product { is_active: Some(0), ..s[idx] }));
            &&& forall|k: int|
                0 <= k < t.filter(product_active()).len() ==> opt_str_view(
                    (#[trigger] t.filter(product_active())[k]).id,
                ) != id
            &&& product_with_code(t, s[idx].code@) == Some(t[idx])
            &&& t[idx].is_active == Some(0i32)
            &&& t[idx].code == s[idx].code
        }),
{
    let idx = first_where(s, product_id_is(id));
    lemma_first_where_props(s, product_id_is(id));
    let x = Product { is_active: Some(0), ..s[idx] };
    let t = s.update(idx, x);
    assert(opt_str_view(s[idx].id) == id);
    assert forall|j: int| 0 <= j < s.len() && j != idx implies product_code_key()(
        #[trigger] s[j],
    ) != product_code_key()(x) by {
        if j < idx {
            assert(product_code_key()(s[j]) != product_code_key()(s[idx]));
        } else {
            assert(product_code_key()(s[idx]) != product_code_key()(s[j]));
        }
    }
    lemma_unique_update_fresh(s, product_code_key(), x, idx);
    lemma_filter_members(t, product_active());
    assert forall|k: int| 0 <= k < t.filter(product_active()).len() implies opt_str_view(
        (#[trigger] t.filter(product_active())[k]).id,
    ) != id by {
        t.lemma_filter_pred(product_active(), k);
        assert(t.contains(t.filter(product_active())[k]));
        let m = choose|m: int| 0 <= m < t.len() && t[m] == t.filter(product_active())[k];
        if m == idx {
            assert(t[m].is_active == Some(0i32));
        } else {
            assert(t[m] == s[m]);
            if m < idx {
                assert(product_id_key()(s[m]) != product_id_key()(s[idx]));
            } else {
                assert(product_id_key()(s[idx]) != product_id_key()(s[m]));
            }
        }
    }
    lemma_with_code_unique(t, idx);
    assert(t[idx].code@ == s[idx].code@);
}

/// After a bootstrap of an empty store, the seeded administrator is the user
/// the login command finds under the seed username, and the seed password
/// matches its stored hash, so that login succeeds and reports role `admin`.
pub proof fn lemma_seed_login(s: Store)
    requires
        s.users@.len() == 1,
        s.users@[0].username@ == "BrankoFND"@,
        s.users@[0].role@ == "admin"@,
        bcrypt_matches("MoskvaSlezamNeVeryt2024"@, s.users@[0].password@),
    ensures
        user_with(s.users@, "BrankoFND"@) == Some(s.users@[0]),
        bcrypt_matches(
            "MoskvaSlezamNeVeryt2024"@,
            (user_with(s.users@, "BrankoFND"@)->0).password@,
        ),
        (user_with(s.users@, "BrankoFND"@)->0).role@ == "admin"@,
{
    assert(s.users@[0].username@ == "BrankoFND"@);
}

} // verus!
