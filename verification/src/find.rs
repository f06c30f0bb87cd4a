//! The first element of a sequence that satisfies a predicate.

use vstd::prelude::*;

verus! {

/// The index of the first element of `s` that satisfies `pred`.
pub open spec fn first_with<T>(s: Seq<T>, pred: spec_fn(T) -> bool) -> Option<int>
    decreases s.len(),
{
    if s.len() == 0 {
        None
    } else if pred(s[0]) {
        Some(0)
    } else {
        match first_with(s.drop_first(), pred) {
            Some(k) => Some(k + 1),
            None => None,
        }
    }
}

/// `first_with` finds `k` when `s[k]` is the first element satisfying `pred`.
pub proof fn lemma_first_with_found<T>(s: Seq<T>, pred: spec_fn(T) -> bool, k: int)
    requires
        0 <= k < s.len(),
        pred(s[k]),
        forall|j: int| 0 <= j < k ==> !pred(#[trigger] s[j]),
    ensures
        first_with(s, pred) == Some(k),
    decreases k,
{
    if k > 0 {
        assert(!pred(s[0]));
        assert forall|j: int| 0 <= j < k - 1 implies !pred(#[trigger] s.drop_first()[j]) by {
            assert(s.drop_first()[j] == s[j + 1]);
        }
        lemma_first_with_found(s.drop_first(), pred, k - 1);
    }
}

/// `first_with` finds nothing when no element satisfies `pred`.
pub proof fn lemma_first_with_none<T>(s: Seq<T>, pred: spec_fn(T) -> bool)
    requires
        forall|j: int| 0 <= j < s.len() ==> !pred(#[trigger] s[j]),
    ensures
        first_with(s, pred) is None,
    decreases s.len(),
{
    if s.len() > 0 {
        assert(!pred(s[0]));
        assert forall|j: int| 0 <= j < s.len() - 1 implies !pred(#[trigger] s.drop_first()[j]) by {
            assert(s.drop_first()[j] == s[j + 1]);
        }
        lemma_first_with_none(s.drop_first(), pred);
    }
}

/// What `first_with` finds lies in `s` and satisfies `pred`.
pub proof fn lemma_first_with_valid<T>(s: Seq<T>, pred: spec_fn(T) -> bool)
    ensures
        first_with(s, pred) matches Some(k) ==> 0 <= k < s.len() && pred(s[k]),
    decreases s.len(),
{
    if s.len() > 0 && !pred(s[0]) {
        lemma_first_with_valid(s.drop_first(), pred);
    }
}

} // verus!
