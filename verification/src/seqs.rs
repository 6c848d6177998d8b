//! Small general-purpose lemmas about `Seq::filter`, `take` and sortedness,
//! shared by the table operations of the store.

use vstd::prelude::*;

verus! {

/// `s` is sorted with respect to the relation `leq`.
pub open spec fn sorted_by<A>(s: Seq<A>, leq: spec_fn(A, A) -> bool) -> bool {
    forall|i: int, j: int| 0 <= i < j < s.len() ==> leq(#[trigger] s[i], #[trigger] s[j])
}

/// No two rows share a key.
pub open spec fn unique_by<A, K>(s: Seq<A>, key: spec_fn(A) -> K) -> bool {
    forall|i: int, j: int| 0 <= i < j < s.len() ==> key(#[trigger] s[i]) != key(#[trigger] s[j])
}

/// Every row satisfies a per-row condition.
pub open spec fn all_rows<A>(s: Seq<A>, ok: spec_fn(A) -> bool) -> bool {
    forall|i: int| 0 <= i < s.len() ==> ok(#[trigger] s[i])
}

/// Stepping a forward scan: filtering one more element either appends it or not.
pub proof fn lemma_filter_take_step<A>(s: Seq<A>, pred: spec_fn(A) -> bool, i: int)
    requires
        0 <= i < s.len(),
    ensures
        s.take(i + 1).filter(pred) == (if pred(s[i]) {
            s.take(i).filter(pred).push(s[i])
        } else {
            s.take(i).filter(pred)
        }),
{
    reveal(Seq::filter);
    assert(s.take(i + 1).drop_last() =~= s.take(i));
    assert(s.take(i + 1).last() == s[i]);
}

/// Taking the whole sequence is the sequence itself.
pub proof fn lemma_take_full<A>(s: Seq<A>)
    ensures
        s.take(s.len() as int) == s,
{
    assert(s.take(s.len() as int) =~= s);
}

/// Every element of a filtered sequence occurs in the source.
pub proof fn lemma_filter_members<A>(s: Seq<A>, pred: spec_fn(A) -> bool)
    ensures
        forall|k: int|
            0 <= k < s.filter(pred).len() ==> s.contains(#[trigger] s.filter(pred)[k]),
    decreases s.len(),
{
    reveal(Seq::filter);
    if s.len() != 0 {
        let dl = s.drop_last();
        lemma_filter_members(dl, pred);
        assert forall|k: int|
            0 <= k < s.filter(pred).len() implies s.contains(#[trigger] s.filter(pred)[k]) by {
            let x = s.filter(pred)[k];
            if k < dl.filter(pred).len() {
                assert(dl.contains(x));
                let m = choose|m: int| 0 <= m < dl.len() && dl[m] == x;
                assert(s[m] == x);
            } else {
                assert(x == s.last());
                assert(s[s.len() - 1] == x);
            }
        }
    }
}

/// Filtering preserves sortedness.
pub proof fn lemma_filter_sorted<A>(s: Seq<A>, pred: spec_fn(A) -> bool, leq: spec_fn(A, A) -> bool)
    requires
        sorted_by(s, leq),
    ensures
        sorted_by(s.filter(pred), leq),
    decreases s.len(),
{
    reveal(Seq::filter);
    if s.len() != 0 {
        let dl = s.drop_last();
        assert(sorted_by(dl, leq));
        lemma_filter_sorted(dl, pred, leq);
        lemma_filter_members(dl, pred);
        if pred(s.last()) {
            let f = s.filter(pred);
            assert(f == dl.filter(pred).push(s.last()));
            assert forall|i: int, j: int| 0 <= i < j < f.len() implies leq(#[trigger] f[i], #[trigger] f[j]) by {
                if j < f.len() - 1 {
                    assert(leq(dl.filter(pred)[i], dl.filter(pred)[j]));
                } else {
                    assert(dl.contains(dl.filter(pred)[i]));
                    let m = choose|m: int| 0 <= m < dl.len() && dl[m] == dl.filter(pred)[i];
                    assert(leq(s[m], s[s.len() - 1]));
                }
            }
        }
    }
}

/// Inserting a row whose key is fresh preserves key-uniqueness.
pub proof fn lemma_unique_insert<A, K>(s: Seq<A>, key: spec_fn(A) -> K, x: A, k: int)
    requires
        unique_by(s, key),
        forall|i: int| 0 <= i < s.len() ==> key(#[trigger] s[i]) != key(x),
        0 <= k <= s.len(),
    ensures
        unique_by(s.insert(k, x), key),
{
    let t = s.insert(k, x);
    assert forall|i: int, j: int| 0 <= i < j < t.len() implies key(#[trigger] t[i]) != key(
        #[trigger] t[j],
    ) by {
        if i != k && j != k {
            let si = if i < k { i } else { i - 1 };
            let sj = if j < k { j } else { j - 1 };
            assert(t[i] == s[si] && t[j] == s[sj]);
        } else if i == k {
            assert(t[i] == x && t[j] == s[j - 1]);
        } else {
            assert(t[j] == x && t[i] == s[i]);
        }
    }
}

/// A row property that some element has survives an insertion.
pub proof fn lemma_insert_keeps_exists<A>(s: Seq<A>, x: A, k: int, pred: spec_fn(A) -> bool)
    requires
        0 <= k <= s.len(),
        exists|i: int| 0 <= i < s.len() && pred(#[trigger] s[i]),
    ensures
        exists|i: int| 0 <= i < s.insert(k, x).len() && pred(#[trigger] s.insert(k, x)[i]),
{
    let i = choose|i: int| 0 <= i < s.len() && pred(s[i]);
    let t = s.insert(k, x);
    if i < k {
        assert(t[i] == s[i]);
    } else {
        assert(t[i + 1] == s[i]);
    }
}

/// Inserting a well-formed row preserves a per-row condition.
pub proof fn lemma_all_rows_insert<A>(s: Seq<A>, ok: spec_fn(A) -> bool, x: A, k: int)
    requires
        all_rows(s, ok),
        ok(x),
        0 <= k <= s.len(),
    ensures
        all_rows(s.insert(k, x), ok),
{
    let t = s.insert(k, x);
    assert forall|i: int| 0 <= i < t.len() implies ok(#[trigger] t[i]) by {
        if i < k {
            assert(t[i] == s[i]);
        } else if i == k {
            assert(t[i] == x);
        } else {
            assert(t[i] == s[i - 1]);
        }
    }
}

/// Replacing a row by one that orders the same way keeps the sequence sorted.
pub proof fn lemma_sorted_update<A>(s: Seq<A>, leq: spec_fn(A, A) -> bool, x: A, i: int)
    requires
        sorted_by(s, leq),
        0 <= i < s.len(),
        forall|a: A| #[trigger] leq(a, x) == leq(a, s[i]),
        forall|a: A| #[trigger] leq(x, a) == leq(s[i], a),
    ensures
        sorted_by(s.update(i, x), leq),
{
    let t = s.update(i, x);
    assert forall|m: int, j: int| 0 <= m < j < t.len() implies leq(#[trigger] t[m], #[trigger] t[j]) by {
        assert(leq(s[m], s[j]));
    }
}

/// Replacing a row by one whose key clashes with no other row keeps keys
/// unique.
pub proof fn lemma_unique_update_fresh<A, K>(s: Seq<A>, key: spec_fn(A) -> K, x: A, i: int)
    requires
        unique_by(s, key),
        0 <= i < s.len(),
        forall|j: int| 0 <= j < s.len() && j != i ==> key(#[trigger] s[j]) != key(x),
    ensures
        unique_by(s.update(i, x), key),
{
    let t = s.update(i, x);
    assert forall|m: int, j: int| 0 <= m < j < t.len() implies key(#[trigger] t[m]) != key(
        #[trigger] t[j],
    ) by {
        if m != i && j != i {
            assert(key(s[m]) != key(s[j]));
        }
    }
}

/// Replacing a row by a well-formed one preserves a per-row condition.
pub proof fn lemma_all_rows_update<A>(s: Seq<A>, ok: spec_fn(A) -> bool, x: A, i: int)
    requires
        all_rows(s, ok),
        0 <= i < s.len(),
        ok(x),
    ensures
        all_rows(s.update(i, x), ok),
{
    let t = s.update(i, x);
    assert forall|m: int| 0 <= m < t.len() implies ok(#[trigger] t[m]) by {
        if m != i {
            assert(ok(s[m]));
        }
    }
}

/// Filtering preserves key-uniqueness.
pub proof fn lemma_filter_unique_by<A, K>(
    s: Seq<A>,
    pred: spec_fn(A) -> bool,
    key: spec_fn(A) -> K,
)
    requires
        unique_by(s, key),
    ensures
        unique_by(s.filter(pred), key),
    decreases s.len(),
{
    reveal(Seq::filter);
    if s.len() != 0 {
        let dl = s.drop_last();
        assert(unique_by(dl, key));
        lemma_filter_unique_by(dl, pred, key);
        lemma_filter_members(dl, pred);
        if pred(s.last()) {
            let f = s.filter(pred);
            assert(f == dl.filter(pred).push(s.last()));
            assert forall|i: int, j: int| 0 <= i < j < f.len() implies key(#[trigger] f[i]) != key(
                #[trigger] f[j],
            ) by {
                if j < f.len() - 1 {
                    assert(key(dl.filter(pred)[i]) != key(dl.filter(pred)[j]));
                } else {
                    assert(dl.contains(dl.filter(pred)[i]));
                    let m = choose|m: int| 0 <= m < dl.len() && dl[m] == dl.filter(pred)[i];
                    assert(key(s[m]) != key(s[s.len() - 1]));
                }
            }
        }
    }
}

/// Filtering preserves any per-row condition.
pub proof fn lemma_filter_all_rows<A>(s: Seq<A>, pred: spec_fn(A) -> bool, ok: spec_fn(A) -> bool)
    requires
        all_rows(s, ok),
    ensures
        all_rows(s.filter(pred), ok),
{
    lemma_filter_members(s, pred);
    assert forall|i: int| 0 <= i < s.filter(pred).len() implies ok(#[trigger] s.filter(pred)[i]) by {
        assert(s.contains(s.filter(pred)[i]));
        let m = choose|m: int| 0 <= m < s.len() && s[m] == s.filter(pred)[i];
        assert(ok(s[m]));
    }
}

/// If no element satisfies the predicate, the filtered sequence is empty.
pub proof fn lemma_filter_none<A>(s: Seq<A>, pred: spec_fn(A) -> bool)
    requires
        forall|k: int| 0 <= k < s.len() ==> !pred(#[trigger] s[k]),
    ensures
        s.filter(pred) == Seq::<A>::empty(),
    decreases s.len(),
{
    reveal(Seq::filter);
    if s.len() != 0 {
        let dl = s.drop_last();
        lemma_filter_none(dl, pred);
        assert(!pred(s.last()));
    } else {
        assert(s.filter(pred) =~= Seq::<A>::empty());
    }
}

} // verus!
