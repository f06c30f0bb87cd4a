//! Stable sorting of targets by a key made of two strings and a number,
//! compared in that order (the strings in the order of `String`s).

use vstd::prelude::*;

use crate::text::{chars_less, chars_lt};

verus! {

/// The key that a list of targets is sorted by.
pub struct SortKey {
    pub primary: Vec<char>,
    pub secondary: Vec<char>,
    pub number: u64,
}

/// A sort key as plain values.
pub struct KeyView {
    pub primary: Seq<char>,
    pub secondary: Seq<char>,
    pub number: u64,
}

impl View for SortKey {
    type V = KeyView;

    open spec fn view(&self) -> KeyView {
        KeyView { primary: self.primary@, secondary: self.secondary@, number: self.number }
    }
}

/// The order of sort keys: by `primary`, then `secondary`, then `number`.
pub open spec fn key_lt(a: KeyView, b: KeyView) -> bool {
    chars_lt(a.primary, b.primary) || (a.primary == b.primary && (chars_lt(
        a.secondary,
        b.secondary,
    ) || (a.secondary == b.secondary && a.number < b.number)))
}

/// Whether `a` comes strictly before `b`.
pub fn key_less(a: &SortKey, b: &SortKey) -> (lt: bool)
    ensures
        lt == key_lt(a@, b@),
{
    if chars_less(&a.primary, &b.primary) {
        return true;
    }
    if chars_less(&b.primary, &a.primary) {
        proof {
            lemma_chars_lt_asymmetric(b.primary@, a.primary@);
        }
        return false;
    }
    proof {
        lemma_chars_lt_total(a.primary@, b.primary@);
    }
    if chars_less(&a.secondary, &b.secondary) {
        return true;
    }
    if chars_less(&b.secondary, &a.secondary) {
        proof {
            lemma_chars_lt_asymmetric(b.secondary@, a.secondary@);
        }
        return false;
    }
    proof {
        lemma_chars_lt_total(a.secondary@, b.secondary@);
    }
    a.number < b.number
}

/// The order of strings is asymmetric.
pub proof fn lemma_chars_lt_asymmetric(a: Seq<char>, b: Seq<char>)
    requires
        chars_lt(a, b),
    ensures
        !chars_lt(b, a),
    decreases a.len(),
{
    if a.len() > 0 && b.len() > 0 && a[0] == b[0] {
        lemma_chars_lt_asymmetric(a.drop_first(), b.drop_first());
    }
}

/// The order of strings is total: of two different strings one comes first.
pub proof fn lemma_chars_lt_total(a: Seq<char>, b: Seq<char>)
    ensures
        chars_lt(a, b) || chars_lt(b, a) || a == b,
    decreases a.len(),
{
    if a.len() > 0 && b.len() > 0 {
        if a[0] == b[0] {
            lemma_chars_lt_total(a.drop_first(), b.drop_first());
            if a.drop_first() == b.drop_first() {
                assert(a =~= seq![a[0]] + a.drop_first());
                assert(b =~= seq![b[0]] + b.drop_first());
            }
        } else {
            assert((a[0] as int) != (b[0] as int));
        }
    } else if a.len() == 0 && b.len() == 0 {
        assert(a =~= b);
    }
}

/// The order of strings is transitive.
pub proof fn lemma_chars_lt_transitive(a: Seq<char>, b: Seq<char>, c: Seq<char>)
    requires
        chars_lt(a, b),
        chars_lt(b, c),
    ensures
        chars_lt(a, c),
    decreases a.len(),
{
    if a.len() > 0 && b.len() > 0 && c.len() > 0 && a[0] == b[0] && b[0] == c[0] {
        lemma_chars_lt_transitive(a.drop_first(), b.drop_first(), c.drop_first());
    }
}

/// The first `n` elements of `s` (all of them when there are fewer), as
/// `Vec::truncate` leaves them.
pub open spec fn truncated<A>(s: Seq<A>, n: nat) -> Seq<A> {
    if s.len() <= n {
        s
    } else {
        s.take(n as int)
    }
}

/// Keyed elements as plain values.
pub open spec fn pairs_view<T: View>(s: Seq<(SortKey, T)>) -> Seq<(KeyView, T::V)> {
    s.map_values(|p: (SortKey, T)| (p.0@, p.1@))
}

/// `x` inserted into `s` after every element that `x` does not come before.
pub open spec fn spec_insert<V>(s: Seq<(KeyView, V)>, x: (KeyView, V)) -> Seq<(KeyView, V)>
    decreases s.len(),
{
    if s.len() == 0 || !key_lt(x.0, s.last().0) {
        s.push(x)
    } else {
        spec_insert(s.drop_last(), x).push(s.last())
    }
}

/// `s` sorted by key, stably: elements with equal keys keep their order.
pub open spec fn spec_sort<V>(s: Seq<(KeyView, V)>) -> Seq<(KeyView, V)>
    decreases s.len(),
{
    if s.len() == 0 {
        s
    } else {
        spec_insert(spec_sort(s.drop_last()), s.last())
    }
}

/// Inserting adds one element.
pub proof fn lemma_insert_len<V>(s: Seq<(KeyView, V)>, x: (KeyView, V))
    ensures
        spec_insert(s, x).len() == s.len() + 1,
    decreases s.len(),
{
    if s.len() > 0 && key_lt(x.0, s.last().0) {
        lemma_insert_len(s.drop_last(), x);
    }
}

/// Sorting keeps the number of elements.
pub proof fn lemma_sort_len<V>(s: Seq<(KeyView, V)>)
    ensures
        spec_sort(s).len() == s.len(),
    decreases s.len(),
{
    if s.len() > 0 {
        lemma_sort_len(s.drop_last());
        lemma_insert_len(spec_sort(s.drop_last()), s.last());
    }
}

proof fn lemma_insert_at<V>(s: Seq<(KeyView, V)>, x: (KeyView, V), j: int)
    requires
        0 <= j <= s.len(),
        forall|k: int| j <= k < s.len() ==> key_lt(x.0, #[trigger] s[k].0),
        j > 0 ==> !key_lt(x.0, s[j - 1].0),
    ensures
        spec_insert(s, x) == s.insert(j, x),
    decreases s.len(),
{
    if j == s.len() {
        assert(s.insert(j, x) =~= s.push(x));
    } else {
        assert(key_lt(x.0, s[s.len() - 1].0));
        lemma_insert_at(s.drop_last(), x, j);
        assert(s.insert(j, x) =~= s.drop_last().insert(j, x).push(s.last()));
    }
}

/// Sorts `items` by key, stably.
pub fn sort_by_key<T: View>(items: Vec<(SortKey, T)>) -> (sorted: Vec<(SortKey, T)>)
    ensures
        pairs_view(sorted@) == spec_sort(pairs_view(items@)),
{
    let ghost orig = pairs_view(items@);
    let ghost origx = items@;
    let mut rest = items;
    let mut out: Vec<(SortKey, T)> = Vec::new();
    let n = rest.len();
    let mut i: usize = 0;
    assert(orig.take(0) =~= Seq::<(KeyView, T::V)>::empty());
    assert(pairs_view(out@) =~= Seq::<(KeyView, T::V)>::empty());
    assert(origx.skip(0) =~= origx);
    while i < n
        invariant
            n == orig.len(),
            orig == pairs_view(origx),
            i <= n,
            rest@ == origx.skip(i as int),
            pairs_view(out@) == spec_sort(orig.take(i as int)),
        decreases n - i,
    {
        let x = rest.remove(0);
        assert(x == origx[i as int]);
        assert(rest@ =~= origx.skip(i + 1));
        let ghost xv = (x.0@, x.1@);
        assert(xv == orig[i as int]);
        let mut j: usize = out.len();
        while j > 0 && key_less(&x.0, &out[j - 1].0)
            invariant
                j <= out@.len(),
                forall|k: int| j <= k < out@.len() ==> key_lt(x.0@, #[trigger] out@[k].0@),
            decreases j,
        {
            j = j - 1;
        }
        let ghost before = out@;
        proof {
            let pv = pairs_view(before);
            assert forall|k: int| j <= k < pv.len() implies key_lt(xv.0, #[trigger] pv[k].0) by {
                assert(pv[k].0 == before[k].0@);
            }
            if j > 0 {
                assert(pv[j - 1].0 == before[j - 1].0@);
            }
            lemma_insert_at(pv, xv, j as int);
            assert(orig.take(i + 1).drop_last() =~= orig.take(i as int));
            assert(orig.take(i + 1).last() == xv);
        }
        out.insert(j, x);
        assert(pairs_view(out@) =~= pairs_view(before).insert(j as int, xv));
        i = i + 1;
    }
    assert(orig.take(n as int) =~= orig);
    out
}


/// The order of sort keys is irreflexive.
pub proof fn lemma_key_lt_irreflexive(a: KeyView)
    ensures
        !key_lt(a, a),
{
    if chars_lt(a.primary, a.primary) {
        lemma_chars_lt_asymmetric(a.primary, a.primary);
    }
    if chars_lt(a.secondary, a.secondary) {
        lemma_chars_lt_asymmetric(a.secondary, a.secondary);
    }
}

/// The order of sort keys is transitive.
pub proof fn lemma_key_lt_transitive(a: KeyView, b: KeyView, c: KeyView)
    requires
        key_lt(a, b),
        key_lt(b, c),
    ensures
        key_lt(a, c),
{
    if chars_lt(a.primary, b.primary) && chars_lt(b.primary, c.primary) {
        lemma_chars_lt_transitive(a.primary, b.primary, c.primary);
    } else if a.primary == b.primary && b.primary == c.primary {
        if chars_lt(a.secondary, b.secondary) && chars_lt(b.secondary, c.secondary) {
            lemma_chars_lt_transitive(a.secondary, b.secondary, c.secondary);
        }
    }
}

/// Of two different sort keys, one comes first.
pub proof fn lemma_key_lt_total(a: KeyView, b: KeyView)
    ensures
        key_lt(a, b) || key_lt(b, a) || a == b,
{
    lemma_chars_lt_total(a.primary, b.primary);
    lemma_chars_lt_total(a.secondary, b.secondary);
}

/// `s` is sorted: no element comes before an earlier one.
pub open spec fn is_sorted<V>(s: Seq<(KeyView, V)>) -> bool {
    forall|i: int, j: int| 0 <= i < j < s.len() ==> !key_lt(#[trigger] s[j].0, #[trigger] s[i].0)
}

proof fn lemma_le_transitive(a: KeyView, b: KeyView, c: KeyView)
    requires
        !key_lt(b, a),
        !key_lt(c, b),
    ensures
        !key_lt(c, a),
{
    lemma_key_lt_total(a, b);
    lemma_key_lt_total(b, c);
    if key_lt(c, a) {
        if key_lt(a, b) {
            lemma_key_lt_transitive(c, a, b);
        }
    }
}

/// Inserting adds exactly the inserted element.
pub proof fn lemma_insert_multiset<V>(s: Seq<(KeyView, V)>, x: (KeyView, V))
    ensures
        spec_insert(s, x).to_multiset() =~= s.to_multiset().insert(x),
    decreases s.len(),
{
    broadcast use vstd::seq_lib::group_to_multiset_ensures;

    if s.len() > 0 && key_lt(x.0, s.last().0) {
        lemma_insert_multiset(s.drop_last(), x);
        assert(s =~= s.drop_last().push(s.last()));
        assert(s.to_multiset() =~= s.drop_last().to_multiset().insert(s.last()));
    }
}

/// Sorting permutes: it keeps every element, as often as it occurs.
pub proof fn lemma_sort_permutes<V>(s: Seq<(KeyView, V)>)
    ensures
        spec_sort(s).to_multiset() =~= s.to_multiset(),
    decreases s.len(),
{
    broadcast use vstd::seq_lib::group_to_multiset_ensures;

    if s.len() > 0 {
        lemma_sort_permutes(s.drop_last());
        lemma_insert_multiset(spec_sort(s.drop_last()), s.last());
        assert(s =~= s.drop_last().push(s.last()));
    }
}

proof fn lemma_insert_elements<V>(s: Seq<(KeyView, V)>, x: (KeyView, V), k: int)
    requires
        0 <= k < spec_insert(s, x).len(),
    ensures
        spec_insert(s, x)[k] == x || s.contains(spec_insert(s, x)[k]),
{
    broadcast use vstd::seq_lib::group_to_multiset_ensures;

    lemma_insert_multiset(s, x);
    let e = spec_insert(s, x)[k];
    assert(spec_insert(s, x).contains(e));
    assert(spec_insert(s, x).to_multiset().count(e) > 0);
}

/// Inserting into a sorted sequence keeps it sorted.
pub proof fn lemma_insert_sorted<V>(s: Seq<(KeyView, V)>, x: (KeyView, V))
    requires
        is_sorted(s),
    ensures
        is_sorted(spec_insert(s, x)),
    decreases s.len(),
{
    if s.len() == 0 {
    } else if !key_lt(x.0, s.last().0) {
        let r = s.push(x);
        assert forall|i: int, j: int| 0 <= i < j < r.len() implies !key_lt(#[trigger] r[j].0, #[trigger] r[i].0) by {
            if j == s.len() {
                if i < s.len() - 1 {
                    lemma_le_transitive(s[i].0, s[s.len() - 1].0, x.0);
                }
            } else {
                assert(r[i] == s[i] && r[j] == s[j]);
            }
        }
    } else {
        let d = s.drop_last();
        assert(is_sorted(d)) by {
            assert forall|i: int, j: int| 0 <= i < j < d.len() implies !key_lt(#[trigger] d[j].0, #[trigger] d[i].0) by {
                assert(d[i] == s[i] && d[j] == s[j]);
            }
        }
        lemma_insert_sorted(d, x);
        let ins = spec_insert(d, x);
        let r = ins.push(s.last());
        lemma_insert_len(d, x);
        assert forall|i: int, j: int| 0 <= i < j < r.len() implies !key_lt(#[trigger] r[j].0, #[trigger] r[i].0) by {
            if j == ins.len() {
                lemma_insert_elements(d, x, i);
                if ins[i] == x {
                    if key_lt(s.last().0, x.0) {
                        lemma_key_lt_transitive(x.0, s.last().0, x.0);
                        lemma_key_lt_irreflexive(x.0);
                    }
                } else {
                    let m = choose|m: int| 0 <= m < d.len() && d[m] == ins[i];
                    assert(s[m] == d[m]);
                    assert(!key_lt(s[s.len() - 1].0, s[m].0));
                }
            } else {
                assert(r[i] == ins[i] && r[j] == ins[j]);
            }
        }
    }
}

/// Sorting sorts: no element of the result comes before an earlier one.
pub proof fn lemma_sort_sorted<V>(s: Seq<(KeyView, V)>)
    ensures
        is_sorted(spec_sort(s)),
    decreases s.len(),
{
    if s.len() > 0 {
        lemma_sort_sorted(s.drop_last());
        lemma_insert_sorted(spec_sort(s.drop_last()), s.last());
    }
}

/// Every element of the sorted sequence is one of the input's.
pub proof fn lemma_sort_contains<V>(s: Seq<(KeyView, V)>, k: int)
    requires
        0 <= k < spec_sort(s).len(),
    ensures
        s.contains(spec_sort(s)[k]),
{
    broadcast use vstd::seq_lib::group_to_multiset_ensures;

    lemma_sort_permutes(s);
    let e = spec_sort(s)[k];
    assert(spec_sort(s).contains(e));
    assert(spec_sort(s).to_multiset().count(e) > 0);
}

/// When each element is keyed by a function of its value, sorting keeps
/// that keying and orders the values by it.
pub proof fn lemma_sort_orders_values<V>(s: Seq<(KeyView, V)>, key: spec_fn(V) -> KeyView)
    requires
        forall|k: int| 0 <= k < s.len() ==> #[trigger] s[k].0 == key(s[k].1),
    ensures
        spec_sort(s).len() == s.len(),
        forall|k: int| 0 <= k < spec_sort(s).len() ==> #[trigger] spec_sort(s)[k].0 == key(
            spec_sort(s)[k].1,
        ),
        forall|i: int, j: int|
            0 <= i < j < spec_sort(s).len() ==> !key_lt(
                key(#[trigger] spec_sort(s)[j].1),
                key(#[trigger] spec_sort(s)[i].1),
            ),
{
    lemma_sort_len(s);
    lemma_sort_sorted(s);
    let r = spec_sort(s);
    assert forall|k: int| 0 <= k < r.len() implies #[trigger] r[k].0 == key(r[k].1) by {
        lemma_sort_contains(s, k);
        let m = choose|m: int| 0 <= m < s.len() && s[m] == r[k];
        assert(s[m].0 == key(s[m].1));
    }
    assert forall|i: int, j: int| 0 <= i < j < r.len() implies !key_lt(
        key(#[trigger] r[j].1),
        key(#[trigger] r[i].1),
    ) by {
        assert(r[i].0 == key(r[i].1));
        assert(r[j].0 == key(r[j].1));
        assert(!key_lt(r[j].0, r[i].0));
    }
}

proof fn lemma_insert_is_insert_at<V>(s: Seq<(KeyView, V)>, x: (KeyView, V)) -> (j: int)
    ensures
        0 <= j <= s.len(),
        spec_insert(s, x) == s.insert(j, x),
    decreases s.len(),
{
    if s.len() == 0 || !key_lt(x.0, s.last().0) {
        assert(s.push(x) =~= s.insert(s.len() as int, x));
        s.len() as int
    } else {
        let j = lemma_insert_is_insert_at(s.drop_last(), x);
        assert(s.drop_last().insert(j, x).push(s.last()) =~= s.insert(j, x));
        j
    }
}

/// No two values of `s` (at different positions) are related by `rel`.
pub open spec fn pairwise_apart<V>(s: Seq<(KeyView, V)>, rel: spec_fn(V, V) -> bool) -> bool {
    forall|i: int, j: int| #![trigger s[i], s[j]] 0 <= i < j < s.len() ==> !rel(s[i].1, s[j].1)
}

/// Sorting brings no two related values together: when no two values of
/// `s` are related by the symmetric `rel`, neither are two of the sorted
/// sequence.
pub proof fn lemma_sort_keeps_apart<V>(s: Seq<(KeyView, V)>, rel: spec_fn(V, V) -> bool)
    requires
        forall|a: V, b: V| #[trigger] rel(a, b) ==> rel(b, a),
        pairwise_apart(s, rel),
    ensures
        pairwise_apart(spec_sort(s), rel),
    decreases s.len(),
{
    if s.len() > 0 {
        let p = s.drop_last();
        assert(pairwise_apart(p, rel)) by {
            assert forall|i: int, j: int| #![trigger p[i], p[j]] 0 <= i < j < p.len() implies !rel(
                p[i].1,
                p[j].1,
            ) by {
                assert(p[i] == s[i] && p[j] == s[j]);
            }
        }
        lemma_sort_keeps_apart(p, rel);
        let sp = spec_sort(p);
        let x = s.last();
        lemma_sort_len(p);
        assert forall|k: int| 0 <= k < sp.len() implies !rel(#[trigger] sp[k].1, x.1) by {
            lemma_sort_contains(p, k);
            let m = choose|m: int| 0 <= m < p.len() && p[m] == sp[k];
            assert(s[m] == p[m]);
            assert(!rel(s[m].1, s[s.len() - 1].1));
        }
        let j = lemma_insert_is_insert_at(sp, x);
        let r = sp.insert(j, x);
        assert forall|a: int, b: int| #![trigger r[a], r[b]] 0 <= a < b < r.len() implies !rel(
            r[a].1,
            r[b].1,
        ) by {
            if b < j {
                assert(r[a] == sp[a] && r[b] == sp[b]);
            } else if b == j {
                assert(r[a] == sp[a] && r[b] == x);
                assert(!rel(sp[a].1, x.1));
            } else if a < j {
                assert(r[a] == sp[a] && r[b] == sp[b - 1]);
            } else if a == j {
                assert(r[a] == x && r[b] == sp[b - 1]);
                assert(!rel(sp[b - 1].1, x.1));
                if rel(x.1, sp[b - 1].1) {
                    assert(rel(sp[b - 1].1, x.1));
                }
            } else {
                assert(r[a] == sp[a - 1] && r[b] == sp[b - 1]);
            }
        }
    }
}

/// Sorting a list that is already in order changes nothing: equal keys
/// keep the order they came in.
pub proof fn lemma_sort_sorted_unchanged<V>(s: Seq<(KeyView, V)>)
    requires
        is_sorted(s),
    ensures
        spec_sort(s) == s,
    decreases s.len(),
{
    if s.len() > 0 {
        let p = s.drop_last();
        assert(is_sorted(p)) by {
            assert forall|i: int, j: int| 0 <= i < j < p.len() implies !key_lt(
                #[trigger] p[j].0,
                #[trigger] p[i].0,
            ) by {
                assert(p[i] == s[i] && p[j] == s[j]);
            }
        }
        lemma_sort_sorted_unchanged(p);
        if p.len() > 0 {
            assert(!key_lt(s[s.len() - 1].0, s[s.len() - 2].0));
        }
        assert(p.push(s.last()) =~= s);
    }
}

} // verus!
