use vstd::prelude::*;

verus! {

/// Filtering keeps nothing when no element satisfies the predicate.
pub proof fn lemma_filter_none<A>(s: Seq<A>, p: spec_fn(A) -> bool)
    requires
        forall|i: int| 0 <= i < s.len() ==> !p(#[trigger] s[i]),
    ensures
        s.filter(p) == Seq::<A>::empty(),
    decreases s.len(),
{
    reveal(Seq::filter);
    if s.len() == 0 {
        assert(s.filter(p) =~= Seq::<A>::empty());
    } else {
        lemma_filter_none(s.drop_last(), p);
        assert(!p(s.last()));
        assert(s.filter(p) =~= Seq::<A>::empty());
    }
}

/// Filtering keeps everything when every element satisfies the predicate.
pub proof fn lemma_filter_all<A>(s: Seq<A>, p: spec_fn(A) -> bool)
    requires
        forall|i: int| 0 <= i < s.len() ==> p(#[trigger] s[i]),
    ensures
        s.filter(p) == s,
    decreases s.len(),
{
    reveal(Seq::filter);
    if s.len() == 0 {
    } else {
        lemma_filter_all(s.drop_last(), p);
        assert(p(s.last()));
        assert(s.filter(p) == s.drop_last().filter(p).push(s.last()));
        assert(s.drop_last().push(s.last()) =~= s);
    }
}

/// What filtering a one-element sequence yields.
pub proof fn lemma_filter_singleton<A>(x: A, p: spec_fn(A) -> bool)
    ensures
        seq![x].filter(p) == if p(x) {
            seq![x]
        } else {
            Seq::<A>::empty()
        },
{
    reveal(Seq::filter);
    assert(seq![x].drop_last() =~= Seq::<A>::empty());
    assert(Seq::<A>::empty().filter(p) == Seq::<A>::empty());
    assert(seq![x].last() == x);
    if p(x) {
        assert(seq![x].filter(p) == Seq::<A>::empty().push(x));
        assert(Seq::<A>::empty().push(x) =~= seq![x]);
    } else {
        assert(seq![x].filter(p) == Seq::<A>::empty());
    }
}

/// Every element of a filtered sequence occurs in the sequence it came from.
pub proof fn lemma_filter_elems<A>(s: Seq<A>, p: spec_fn(A) -> bool)
    ensures
        forall|k: int| 0 <= k < s.filter(p).len() ==> s.contains(#[trigger] s.filter(p)[k]),
    decreases s.len(),
{
    reveal(Seq::filter);
    if s.len() == 0 {
    } else {
        let dl = s.drop_last();
        lemma_filter_elems(dl, p);
        assert forall|k: int| 0 <= k < s.filter(p).len() implies s.contains(
            #[trigger] s.filter(p)[k],
        ) by {
            if p(s.last()) && k == s.filter(p).len() - 1 {
                assert(s.filter(p)[k] == s.last());
                assert(s[s.len() - 1] == s.last());
            } else {
                assert(s.filter(p)[k] == dl.filter(p)[k]);
                assert(dl.contains(dl.filter(p)[k]));
                let a = choose|a: int| 0 <= a < dl.len() && dl[a] == dl.filter(p)[k];
                assert(s[a] == dl.filter(p)[k]);
            }
        }
    }
}

/// Filtering preserves distinctness of a key drawn from each element.
pub proof fn lemma_filter_distinct_keys<A>(s: Seq<A>, p: spec_fn(A) -> bool, key: spec_fn(A) -> int)
    requires
        forall|i: int, j: int|
            0 <= i < s.len() && 0 <= j < s.len() && i != j ==> key(#[trigger] s[i]) != key(
                #[trigger] s[j],
            ),
    ensures
        forall|i: int, j: int|
            0 <= i < s.filter(p).len() && 0 <= j < s.filter(p).len() && i != j ==> key(
                #[trigger] s.filter(p)[i],
            ) != key(#[trigger] s.filter(p)[j]),
    decreases s.len(),
{
    reveal(Seq::filter);
    if s.len() == 0 {
    } else {
        let dl = s.drop_last();
        lemma_filter_distinct_keys(dl, p, key);
        lemma_filter_elems(dl, p);
        let f = s.filter(p);
        assert forall|i: int, j: int|
            0 <= i < f.len() && 0 <= j < f.len() && i != j implies key(#[trigger] f[i]) != key(
            #[trigger] f[j],
        ) by {
            if p(s.last()) {
                if i < f.len() - 1 && j < f.len() - 1 {
                    assert(f[i] == dl.filter(p)[i]);
                    assert(f[j] == dl.filter(p)[j]);
                } else {
                    let k = if i == f.len() - 1 {
                        j
                    } else {
                        i
                    };
                    assert(f[f.len() - 1] == s.last());
                    assert(f[k] == dl.filter(p)[k]);
                    assert(dl.contains(dl.filter(p)[k]));
                    let a = choose|a: int| 0 <= a < dl.len() && dl[a] == dl.filter(p)[k];
                    assert(s[a] == f[k]);
                    assert(key(s[a]) != key(s[s.len() - 1]));
                }
            } else {
                assert(f[i] == dl.filter(p)[i]);
                assert(f[j] == dl.filter(p)[j]);
            }
        }
    }
}

} // verus!
