//! Stable sorting of keyed items.

use vstd::prelude::*;

verus! {

/// `s` with `x` inserted after every element whose key is at most `x`'s key,
/// starting the search from the end (the insertion step of a stable sort).
pub open spec fn insert_by_key<T>(s: Seq<(u64, T)>, x: (u64, T)) -> Seq<(u64, T)>
    decreases s.len(),
{
    if s.len() == 0 {
        seq![x]
    } else if s.last().0 <= x.0 {
        s.push(x)
    } else {
        insert_by_key(s.drop_last(), x).push(s.last())
    }
}

/// The stable sort of `s` by key.
pub open spec fn sort_by_key<T>(s: Seq<(u64, T)>) -> Seq<(u64, T)>
    decreases s.len(),
{
    if s.len() == 0 {
        Seq::empty()
    } else {
        insert_by_key(sort_by_key(s.drop_last()), s.last())
    }
}

/// Whether the keys of `s` never decrease.
pub open spec fn keys_sorted<T>(s: Seq<(u64, T)>) -> bool {
    forall|i: int, j: int| 0 <= i <= j < s.len() ==> s[i].0 <= s[j].0
}

proof fn lemma_insert_sorted<T>(s: Seq<(u64, T)>, x: (u64, T))
    requires
        keys_sorted(s),
    ensures
        keys_sorted(insert_by_key(s, x)),
        insert_by_key(s, x).len() == s.len() + 1,
        insert_by_key(s, x).to_multiset() == s.to_multiset().insert(x),
    decreases s.len(),
{
    broadcast use vstd::seq_lib::group_to_multiset_ensures;
    if s.len() == 0 {
        assert(seq![x] =~= Seq::<(u64, T)>::empty().push(x));
    } else if s.last().0 <= x.0 {
    } else {
        let p = s.drop_last();
        assert(keys_sorted(p));
        lemma_insert_sorted(p, x);
        let r = insert_by_key(p, x);
        assert forall|i: int, j: int| 0 <= i <= j < r.push(s.last()).len() implies r.push(s.last())[i].0
            <= r.push(s.last())[j].0 by {
            if j == r.len() {
                if i < r.len() {
                    assert(r.to_multiset().count(r[i]) > 0);
                    assert(r.contains(r[i]));
                    if r[i] == x {
                    } else {
                        assert(p.to_multiset().insert(x).count(r[i]) > 0);
                        assert(p.to_multiset().count(r[i]) > 0);
                        assert(p.contains(r[i]));
                        let k = choose|k: int| 0 <= k < p.len() && p[k] == r[i];
                        assert(s[k] == p[k]);
                    }
                }
            }
        }
        assert(s =~= p.push(s.last()));
    }
}

/// Sorting orders the keys and keeps every element.
pub proof fn lemma_sort_sorted<T>(s: Seq<(u64, T)>)
    ensures
        keys_sorted(sort_by_key(s)),
        sort_by_key(s).len() == s.len(),
        sort_by_key(s).to_multiset() == s.to_multiset(),
    decreases s.len(),
{
    broadcast use vstd::seq_lib::group_to_multiset_ensures;
    if s.len() > 0 {
        lemma_sort_sorted(s.drop_last());
        lemma_insert_sorted(sort_by_key(s.drop_last()), s.last());
        assert(s =~= s.drop_last().push(s.last()));
    }
}

/// Sorts keyed items by key; items with equal keys keep their order.
pub fn stable_sort<T: Copy>(v: Vec<(u64, T)>) -> (r: Vec<(u64, T)>)
    ensures
        r@ == sort_by_key(v@),
{
    let mut r: Vec<(u64, T)> = Vec::new();
    for i in 0..v.len()
        invariant
            r@ == sort_by_key(v@.take(i as int)),
    {
        let x = v[i];
        let ghost s = r@;
        assert(v@.take(i + 1).drop_last() =~= v@.take(i as int));
        r.push(x);
        let mut j = r.len() - 1;
        assert(s.take(j as int) =~= s);
        assert(s.skip(j as int) =~= Seq::<(u64, T)>::empty());
        while j > 0 && r[j - 1].0 > x.0
            invariant
                j <= s.len(),
                r@ == s.take(j as int).push(x) + s.skip(j as int),
                insert_by_key(s, x) == insert_by_key(s.take(j as int), x) + s.skip(j as int),
            decreases j,
        {
            let ghost t = s.take(j as int);
            assert(t.last() == s[j - 1]);
            assert(r@[j - 1] == s[j - 1]);
            assert(t.drop_last() =~= s.take(j - 1));
            assert(s.skip(j - 1) =~= seq![s[j - 1]] + s.skip(j as int));
            let a = r[j - 1];
            let b = r[j];
            r.set(j - 1, b);
            r.set(j, a);
            j -= 1;
            assert(r@ =~= s.take(j as int).push(x) + s.skip(j as int));
            assert(insert_by_key(s.take(j as int), x) + s.skip(j as int) =~= insert_by_key(t, x) + s.skip(
                (j + 1) as int,
            ));
        }
        assert(insert_by_key(s.take(j as int), x) == s.take(j as int).push(x));
    }
    assert(v@.take(v.len() as int) =~= v@);
    r
}

} // verus!
