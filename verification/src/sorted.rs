//! What an insertion does to the elements of a sequence.

use vstd::prelude::*;

verus! {

/// An insertion brings in one element and loses none.
pub proof fn lemma_insert_multiset<T>(s: Seq<T>, i: int, x: T)
    requires
        0 <= i <= s.len(),
    ensures
        s.insert(i, x).to_multiset() == s.to_multiset().insert(x),
{
    let t = s.insert(i, x);
    assert(t.remove(i) =~= s);
    t.to_multiset_ensures();
    assert(t[i] == x);
    assert(t.contains(x));
    assert(t.to_multiset().remove(x).insert(x) =~= t.to_multiset());
}

proof fn lemma_filter_none<T>(s: Seq<T>, p: spec_fn(T) -> bool)
    requires
        forall|i: int| 0 <= i < s.len() ==> !p(#[trigger] s[i]),
    ensures
        s.filter(p) == Seq::<T>::empty(),
    decreases s.len(),
{
    reveal(Seq::filter);
    if s.len() > 0 {
        assert(!p(s.last()));
        lemma_filter_none(s.drop_last(), p);
    } else {
        assert(s.filter(p) =~= Seq::<T>::empty());
    }
}

/// An element that goes behind all that have a property as it has goes behind them among
/// those that have it.
pub proof fn lemma_filter_insert<T>(s: Seq<T>, k: int, x: T, p: spec_fn(T) -> bool)
    requires
        0 <= k <= s.len(),
        p(x) ==> forall|j: int| k <= j < s.len() ==> !p(#[trigger] s[j]),
    ensures
        s.insert(k, x).filter(p) == if p(x) {
            s.filter(p).push(x)
        } else {
            s.filter(p)
        },
{
    let a = s.take(k);
    let b = s.skip(k);
    assert(s =~= a + b);
    assert(s.insert(k, x) =~= a.push(x) + b);
    Seq::filter_distributes_over_add(a, b, p);
    Seq::filter_distributes_over_add(a.push(x), b, p);
    assert(a.push(x).drop_last() =~= a);
    assert(a.push(x).filter(p) == if p(x) {
        a.filter(p).push(x)
    } else {
        a.filter(p)
    }) by {
        reveal(Seq::filter);
    }
    if p(x) {
        assert forall|i: int| 0 <= i < b.len() implies !p(#[trigger] b[i]) by {
            assert(b[i] == s[k + i]);
        }
        lemma_filter_none(b, p);
        assert(s.insert(k, x).filter(p) =~= s.filter(p).push(x));
    }
}

} // verus!
