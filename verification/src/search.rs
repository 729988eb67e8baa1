//! Where in a sequence the first, or the last, element with a property stands.
use vstd::prelude::*;

verus! {

/// `i` is the position of the first element of `s` that satisfies `pred`.
pub open spec fn is_first<A>(s: Seq<A>, pred: spec_fn(A) -> bool, i: int) -> bool {
    &&& 0 <= i < s.len()
    &&& pred(s[i])
    &&& forall|k: int| 0 <= k < i ==> !pred(#[trigger] s[k])
}

/// `i` is the position of the last element of `s` that satisfies `pred`.
pub open spec fn is_last<A>(s: Seq<A>, pred: spec_fn(A) -> bool, i: int) -> bool {
    &&& 0 <= i < s.len()
    &&& pred(s[i])
    &&& forall|k: int| i < k < s.len() ==> !pred(#[trigger] s[k])
}

/// The position of the first element of `s` that satisfies `pred`, if any does.
pub open spec fn first_index<A>(s: Seq<A>, pred: spec_fn(A) -> bool) -> Option<int> {
    if exists|i: int| #[trigger] is_first(s, pred, i) {
        Some(choose|i: int| #[trigger] is_first(s, pred, i))
    } else {
        None
    }
}

/// The position of the last element of `s` that satisfies `pred`, if any does.
pub open spec fn last_index<A>(s: Seq<A>, pred: spec_fn(A) -> bool) -> Option<int> {
    if exists|i: int| #[trigger] is_last(s, pred, i) {
        Some(choose|i: int| #[trigger] is_last(s, pred, i))
    } else {
        None
    }
}

/// The first match is the one `first_index` names.
pub proof fn lemma_first_index_is<A>(s: Seq<A>, pred: spec_fn(A) -> bool, i: int)
    requires
        is_first(s, pred, i),
    ensures
        first_index(s, pred) == Some(i),
{
    let j = choose|j: int| #[trigger] is_first(s, pred, j);
    assert(is_first(s, pred, j));
    if j < i {
        assert(!pred(s[j]));
    } else if i < j {
        assert(!pred(s[i]));
    }
}

/// Where nothing matches, `first_index` is `None`.
pub proof fn lemma_first_index_none<A>(s: Seq<A>, pred: spec_fn(A) -> bool)
    requires
        forall|k: int| 0 <= k < s.len() ==> !pred(#[trigger] s[k]),
    ensures
        first_index(s, pred) is None,
{
    if exists|i: int| #[trigger] is_first(s, pred, i) {
        let i = choose|i: int| #[trigger] is_first(s, pred, i);
        assert(pred(s[i]));
    }
}

/// The last match is the one `last_index` names.
pub proof fn lemma_last_index_is<A>(s: Seq<A>, pred: spec_fn(A) -> bool, i: int)
    requires
        is_last(s, pred, i),
    ensures
        last_index(s, pred) == Some(i),
{
    let j = choose|j: int| #[trigger] is_last(s, pred, j);
    assert(is_last(s, pred, j));
    if j < i {
        assert(!pred(s[i]));
    } else if i < j {
        assert(!pred(s[j]));
    }
}

/// Where nothing matches, `last_index` is `None`.
pub proof fn lemma_last_index_none<A>(s: Seq<A>, pred: spec_fn(A) -> bool)
    requires
        forall|k: int| 0 <= k < s.len() ==> !pred(#[trigger] s[k]),
    ensures
        last_index(s, pred) is None,
{
    if exists|i: int| #[trigger] is_last(s, pred, i) {
        let i = choose|i: int| #[trigger] is_last(s, pred, i);
        assert(pred(s[i]));
    }
}

/// Where `first_index` names a position, the element there matches and none before it does.
pub proof fn lemma_first_index_some<A>(s: Seq<A>, pred: spec_fn(A) -> bool)
    requires
        first_index(s, pred) is Some,
    ensures
        is_first(s, pred, first_index(s, pred)->0),
{
}

/// Where `last_index` names a position, the element there matches and none after it does.
pub proof fn lemma_last_index_some<A>(s: Seq<A>, pred: spec_fn(A) -> bool)
    requires
        last_index(s, pred) is Some,
    ensures
        is_last(s, pred, last_index(s, pred)->0),
{
}

/// Where some element matches, there is a first one.
pub proof fn lemma_first_exists<A>(s: Seq<A>, pred: spec_fn(A) -> bool, k: int)
    requires
        0 <= k < s.len(),
        pred(s[k]),
    ensures
        first_index(s, pred) is Some,
    decreases k,
{
    if forall|m: int| 0 <= m < k ==> !pred(#[trigger] s[m]) {
        assert(is_first(s, pred, k));
    } else {
        let m = choose|m: int| 0 <= m < k && #[trigger] pred(s[m]);
        lemma_first_exists(s, pred, m);
    }
}

/// Replacing an element by one that matches exactly when it did leaves the
/// first match where it was.
pub proof fn lemma_first_index_update<A>(s: Seq<A>, pred: spec_fn(A) -> bool, k: int, x: A)
    requires
        0 <= k < s.len(),
        pred(x) == pred(s[k]),
    ensures
        first_index(s.update(k, x), pred) == first_index(s, pred),
{
    let t = s.update(k, x);
    assert forall|m: int| 0 <= m < s.len() implies pred(#[trigger] t[m]) == pred(s[m]) by {
        if m == k {
        } else {
            assert(t[m] == s[m]);
        }
    }
    match first_index(s, pred) {
        Some(i) => {
            lemma_first_index_some(s, pred);
            assert(is_first(t, pred, i));
            lemma_first_index_is(t, pred, i);
        },
        None => {
            if first_index(t, pred) is Some {
                lemma_first_index_some(t, pred);
                let i = first_index(t, pred)->0;
                lemma_first_exists(s, pred, i);
            }
        },
    }
}

/// Where some element matches, there is a last one.
pub proof fn lemma_last_exists<A>(s: Seq<A>, pred: spec_fn(A) -> bool, k: int)
    requires
        0 <= k < s.len(),
        pred(s[k]),
    ensures
        last_index(s, pred) is Some,
    decreases s.len() - k,
{
    if forall|m: int| k < m < s.len() ==> !pred(#[trigger] s[m]) {
        assert(is_last(s, pred, k));
    } else {
        let m = choose|m: int| k < m < s.len() && #[trigger] pred(s[m]);
        lemma_last_exists(s, pred, m);
    }
}

/// Two sequences of one length whose elements match at the same positions
/// have their first match at the same position.
pub proof fn lemma_first_index_same<A, B>(
    s: Seq<A>,
    pred: spec_fn(A) -> bool,
    t: Seq<B>,
    pred2: spec_fn(B) -> bool,
)
    requires
        s.len() == t.len(),
        forall|m: int| 0 <= m < s.len() ==> pred(#[trigger] s[m]) == pred2(t[m]),
    ensures
        first_index(s, pred) == first_index(t, pred2),
{
    match first_index(s, pred) {
        Some(i) => {
            lemma_first_index_some(s, pred);
            assert(pred(s[i]) == pred2(t[i]));
            assert forall|m: int| 0 <= m < i implies !pred2(#[trigger] t[m]) by {
                assert(pred(s[m]) == pred2(t[m]));
                assert(!pred(s[m]));
            }
            assert(is_first(t, pred2, i));
            lemma_first_index_is(t, pred2, i);
        },
        None => {
            if first_index(t, pred2) is Some {
                lemma_first_index_some(t, pred2);
                let i = first_index(t, pred2)->0;
                assert(pred(s[i]) == pred2(t[i]));
                lemma_first_exists(s, pred, i);
            }
        },
    }
}

} // verus!
