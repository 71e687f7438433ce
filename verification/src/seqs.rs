use vstd::prelude::*;

verus! {

/// Filtering a sequence extended by one element keeps the filtered prefix
/// and appends the new element exactly when it satisfies the predicate.
pub proof fn lemma_filter_push<A>(s: Seq<A>, pred: spec_fn(A) -> bool, x: A)
    ensures
        s.push(x).filter(pred) == if pred(x) {
            s.filter(pred).push(x)
        } else {
            s.filter(pred)
        },
{
    reveal(Seq::filter);
    assert(s.push(x).drop_last() =~= s);
    assert(s.push(x).last() == x);
    assert(s.push(x).len() == s.len() + 1);
}

/// Filtering two sequences that correspond element for element, by
/// predicates that agree across the correspondence, yields filtered
/// sequences that correspond element for element.
pub proof fn lemma_filter_corresponds<A, B>(
    a: Seq<A>,
    b: Seq<B>,
    pa: spec_fn(A) -> bool,
    pb: spec_fn(B) -> bool,
    rel: spec_fn(A, B) -> bool,
)
    requires
        a.len() == b.len(),
        forall|k: int| 0 <= k < a.len() ==> rel(#[trigger] a[k], b[k]),
        forall|k: int| 0 <= k < a.len() ==> (pa(#[trigger] a[k]) <==> pb(b[k])),
    ensures
        a.filter(pa).len() == b.filter(pb).len(),
        forall|k: int|
            0 <= k < a.filter(pa).len() ==> rel(#[trigger] a.filter(pa)[k], b.filter(pb)[k]),
    decreases a.len(),
{
    reveal(Seq::filter);
    if a.len() > 0 {
        let a0 = a.drop_last();
        let b0 = b.drop_last();
        assert(forall|k: int| 0 <= k < a0.len() ==> rel(#[trigger] a0[k], b0[k]));
        assert(forall|k: int| 0 <= k < a0.len() ==> (pa(#[trigger] a0[k]) <==> pb(b0[k])));
        lemma_filter_corresponds(a0, b0, pa, pb, rel);
        assert(rel(a.last(), b.last()));
        assert(pa(a.last()) <==> pb(b.last()));
        if pa(a.last()) {
            assert(a.filter(pa) == a0.filter(pa).push(a.last()));
            assert(b.filter(pb) == b0.filter(pb).push(b.last()));
        } else {
            assert(a.filter(pa) == a0.filter(pa));
            assert(b.filter(pb) == b0.filter(pb));
        }
    }
}

/// Every element of a filtered sequence stands somewhere in the sequence
/// it was filtered from.
pub proof fn lemma_filter_provenance<A>(s: Seq<A>, pred: spec_fn(A) -> bool, k: int)
    requires
        0 <= k < s.filter(pred).len(),
    ensures
        exists|j: int| #![trigger s[j]] 0 <= j < s.len() && s[j] == s.filter(pred)[k],
    decreases s.len(),
{
    reveal(Seq::filter);
    let t = s.drop_last();
    if pred(s.last()) && k == s.filter(pred).len() - 1 {
        assert(s[s.len() - 1] == s.filter(pred)[k]);
    } else {
        lemma_filter_provenance(t, pred, k);
        let j = choose|j: int| #![trigger t[j]] 0 <= j < t.len() && t[j] == t.filter(pred)[k];
        assert(s[j] == s.filter(pred)[k]);
    }
}

} // verus!
