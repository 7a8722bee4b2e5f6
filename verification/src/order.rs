//! The lexicographic order of strings, and sorted sets of strings.

use vstd::prelude::*;

verus! {

/// Whether `a` comes strictly before `b` character by character (as `str` orders).
pub open spec fn lex_lt(a: Seq<char>, b: Seq<char>) -> bool
    decreases a.len(),
{
    if a.len() == 0 {
        b.len() > 0
    } else if b.len() == 0 {
        false
    } else if a[0] != b[0] {
        a[0] < b[0]
    } else {
        lex_lt(a.drop_first(), b.drop_first())
    }
}

/// No string comes before itself.
pub proof fn lemma_lex_irreflexive(a: Seq<char>)
    ensures
        !lex_lt(a, a),
    decreases a.len(),
{
    if a.len() > 0 {
        lemma_lex_irreflexive(a.drop_first());
    }
}

/// Of two different strings, one comes before the other.
pub proof fn lemma_lex_total(a: Seq<char>, b: Seq<char>)
    ensures
        a != b ==> lex_lt(a, b) || lex_lt(b, a),
    decreases a.len(),
{
    if a.len() > 0 && b.len() > 0 && a[0] == b[0] {
        lemma_lex_total(a.drop_first(), b.drop_first());
        if a.drop_first() == b.drop_first() {
            assert(a =~= seq![a[0]] + a.drop_first());
            assert(b =~= seq![b[0]] + b.drop_first());
        }
    } else if a.len() == 0 && b.len() == 0 {
        assert(a =~= b);
    }
}

/// The order is transitive.
pub proof fn lemma_lex_trans(a: Seq<char>, b: Seq<char>, c: Seq<char>)
    requires
        lex_lt(a, b),
        lex_lt(b, c),
    ensures
        lex_lt(a, c),
    decreases a.len(),
{
    if a.len() > 0 && a[0] == b[0] && b[0] == c[0] {
        lemma_lex_trans(a.drop_first(), b.drop_first(), c.drop_first());
    }
}

/// `s` with `x` added, kept in strictly increasing order.
pub open spec fn insert_sorted(s: Seq<Seq<char>>, x: Seq<char>) -> Seq<Seq<char>>
    decreases s.len(),
{
    if s.len() == 0 {
        seq![x]
    } else if x == s[0] {
        s
    } else if lex_lt(x, s[0]) {
        seq![x] + s
    } else {
        seq![s[0]] + insert_sorted(s.drop_first(), x)
    }
}

/// The distinct elements of `items`, in increasing order.
pub open spec fn sorted_set(items: Seq<Seq<char>>) -> Seq<Seq<char>>
    decreases items.len(),
{
    if items.len() == 0 {
        Seq::empty()
    } else {
        insert_sorted(sorted_set(items.drop_last()), items.last())
    }
}

/// Whether `s` is strictly increasing.
pub open spec fn strictly_sorted(s: Seq<Seq<char>>) -> bool {
    forall|i: int, j: int| 0 <= i < j < s.len() ==> lex_lt(#[trigger] s[i], #[trigger] s[j])
}

proof fn lemma_cons_contains(a: Seq<char>, s: Seq<Seq<char>>, y: Seq<char>)
    ensures
        (seq![a] + s).contains(y) <==> (y == a || s.contains(y)),
{
    let c = seq![a] + s;
    if c.contains(y) && y != a {
        let k = choose|k: int| 0 <= k < c.len() && c[k] == y;
        assert(s[k - 1] == y);
    }
    if s.contains(y) {
        let m = choose|m: int| 0 <= m < s.len() && s[m] == y;
        assert(c[m + 1] == y);
    }
    if y == a {
        assert(c[0] == y);
    }
}

proof fn lemma_insert_sorted(s: Seq<Seq<char>>, x: Seq<char>)
    requires
        strictly_sorted(s),
    ensures
        strictly_sorted(insert_sorted(s, x)),
        forall|y: Seq<char>| insert_sorted(s, x).contains(y) <==> (s.contains(y) || y == x),
    decreases s.len(),
{
    if s.len() == 0 {
        assert forall|y: Seq<char>| insert_sorted(s, x).contains(y) <==> (s.contains(y) || y == x) by {
            lemma_cons_contains(x, s, y);
            assert(seq![x] + s =~= seq![x]);
        }
    } else {
        let t = s.drop_first();
        assert(s =~= seq![s[0]] + t);
        assert(strictly_sorted(t)) by {
            assert forall|i: int, j: int| 0 <= i < j < t.len() implies lex_lt(#[trigger] t[i], #[trigger] t[j]) by {
                assert(t[i] == s[i + 1] && t[j] == s[j + 1]);
            }
        }
        if x == s[0] {
            assert forall|y: Seq<char>| insert_sorted(s, x).contains(y) <==> (s.contains(y) || y == x) by {
                lemma_cons_contains(s[0], t, y);
            }
        } else if lex_lt(x, s[0]) {
            assert forall|y: Seq<char>| insert_sorted(s, x).contains(y) <==> (s.contains(y) || y == x) by {
                lemma_cons_contains(x, s, y);
            }
            let r = seq![x] + s;
            assert forall|i: int, j: int| 0 <= i < j < r.len() implies lex_lt(#[trigger] r[i], #[trigger] r[j]) by {
                if i == 0 && j > 1 {
                    assert(lex_lt(s[0], s[j - 1]));
                    lemma_lex_trans(x, s[0], s[j - 1]);
                }
            }
        } else {
            lemma_lex_total(x, s[0]);
            lemma_insert_sorted(t, x);
            let r = insert_sorted(t, x);
            assert forall|y: Seq<char>| insert_sorted(s, x).contains(y) <==> (s.contains(y) || y == x) by {
                lemma_cons_contains(s[0], r, y);
                lemma_cons_contains(s[0], t, y);
            }
            assert forall|y: Seq<char>| r.contains(y) implies lex_lt(s[0], y) by {
                if t.contains(y) {
                    let m = choose|m: int| 0 <= m < t.len() && t[m] == y;
                    assert(lex_lt(s[0], s[m + 1]));
                }
            }
            let q = seq![s[0]] + r;
            assert forall|i: int, j: int| 0 <= i < j < q.len() implies lex_lt(#[trigger] q[i], #[trigger] q[j]) by {
                if i == 0 {
                    assert(r.contains(r[j - 1]));
                } else {
                    assert(q[i] == r[i - 1] && q[j] == r[j - 1]);
                }
            }
        }
    }
}

/// A sorted set is strictly increasing and holds exactly the items.
pub proof fn lemma_sorted_set(items: Seq<Seq<char>>)
    ensures
        strictly_sorted(sorted_set(items)),
        forall|y: Seq<char>| sorted_set(items).contains(y) <==> items.contains(y),
    decreases items.len(),
{
    if items.len() > 0 {
        let p = items.drop_last();
        lemma_sorted_set(p);
        lemma_insert_sorted(sorted_set(p), items.last());
        assert forall|y: Seq<char>| sorted_set(items).contains(y) <==> items.contains(y) by {
            if items.contains(y) {
                let k = choose|k: int| 0 <= k < items.len() && items[k] == y;
                if k < items.len() - 1 {
                    assert(p[k] == y);
                }
            }
            if p.contains(y) {
                let k = choose|k: int| 0 <= k < p.len() && p[k] == y;
                assert(items[k] == y);
            }
            if y == items.last() {
                assert(items[items.len() - 1] == y);
            }
        }
    }
}

/// Whether `a` comes strictly before `b`.
pub fn chars_lt(a: &Vec<char>, b: &Vec<char>) -> (r: bool)
    ensures
        r == lex_lt(a@, b@),
{
    let mut i: usize = 0;
    assert(a@.skip(0) =~= a@);
    assert(b@.skip(0) =~= b@);
    while i < a.len() && i < b.len() && a[i] == b[i]
        invariant
            i <= a.len(),
            i <= b.len(),
            lex_lt(a@, b@) == lex_lt(a@.skip(i as int), b@.skip(i as int)),
        decreases a.len() - i,
    {
        proof {
            let sa = a@.skip(i as int);
            let sb = b@.skip(i as int);
            assert(sa.drop_first() =~= a@.skip(i + 1));
            assert(sb.drop_first() =~= b@.skip(i + 1));
        }
        i += 1;
    }
    let ghost sa = a@.skip(i as int);
    let ghost sb = b@.skip(i as int);
    if i == a.len() {
        i < b.len()
    } else if i == b.len() {
        false
    } else {
        assert(sa[0] == a@[i as int] && sb[0] == b@[i as int]);
        a[i] < b[i]
    }
}

/// Adds `x` to a strictly increasing list of strings unless it is there already.
pub fn insert_sorted_chars(list: &mut Vec<Vec<char>>, x: Vec<char>)
    ensures
        final(list)@.map_values(|v: Vec<char>| v@) == insert_sorted(old(list)@.map_values(|v: Vec<char>| v@), x@),
{
    let ghost s = list@.map_values(|v: Vec<char>| v@);
    let mut i: usize = 0;
    assert(s.skip(0) =~= s);
    assert(s.take(0) + insert_sorted(s, x@) =~= insert_sorted(s, x@));
    while i < list.len() && chars_lt(&list[i], &x)
        invariant
            i <= list.len(),
            list@.map_values(|v: Vec<char>| v@) == s,
            insert_sorted(s, x@) == s.take(i as int) + insert_sorted(s.skip(i as int), x@),
        decreases list.len() - i,
    {
        proof {
            let t = s.skip(i as int);
            assert(t.drop_first() =~= s.skip(i + 1));
            assert(t[0] == s[i as int]);
            assert(s[i as int] == list@[i as int]@);
            lemma_lex_irreflexive(x@);
            if lex_lt(x@, t[0]) {
                lemma_lex_trans(t[0], x@, t[0]);
                lemma_lex_irreflexive(t[0]);
            }
            assert(s.take(i + 1) =~= s.take(i as int) + seq![s[i as int]]);
        }
        i += 1;
    }
    assert(s.skip(i as int).len() == 0 ==> insert_sorted(s.skip(i as int), x@) == seq![x@]);
    if i < list.len() && crate::chars::vec_eq(&list[i], &x) {
        assert(s[i as int] == list@[i as int]@);
        assert(s.skip(i as int)[0] == x@);
        assert(s.take(i as int) + s.skip(i as int) =~= s);
    } else {
        proof {
            if i < list.len() {
                assert(s[i as int] == list@[i as int]@);
                assert(s.skip(i as int)[0] == s[i as int]);
                lemma_lex_total(x@, s[i as int]);
            }
        }
        let ghost before = list@;
        list.insert(i, x);
        assert(list@.map_values(|v: Vec<char>| v@) =~= s.take(i as int) + (seq![x@] + s.skip(i as int)));
    }
}

} // verus!
