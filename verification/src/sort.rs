//! Stable ordering of listings by a key, as `slice::sort_by` orders them.
use vstd::prelude::*;

verus! {

broadcast use vstd::seq_lib::group_to_multiset_ensures;

/// Items ordered by a key that is a total preorder.
pub trait SortKey: Sized {
    /// The key of `self` is at most the key of `other`.
    spec fn key_le(&self, other: &Self) -> bool;

    /// Exec form of `key_le`.
    fn key_le_exec(&self, other: &Self) -> (res: bool)
        ensures
            res == self.key_le(other),
    ;

    /// Any two keys compare.
    proof fn key_total(a: &Self, b: &Self)
        ensures
            a.key_le(b) || b.key_le(a),
    ;

    /// Comparison of keys is transitive.
    proof fn key_transitive(a: &Self, b: &Self, c: &Self)
        requires
            a.key_le(b),
            b.key_le(c),
        ensures
            a.key_le(c),
    ;
}

/// `s` with `x` placed after every trailing element whose key exceeds
/// `x`'s key, that is after the last element with a key at most `x`'s.
pub open spec fn insert_in_order<T: SortKey>(s: Seq<T>, x: T) -> Seq<T>
    decreases s.len(),
{
    if s.len() == 0 {
        seq![x]
    } else if s.last().key_le(&x) {
        s.push(x)
    } else {
        insert_in_order(s.drop_last(), x).push(s.last())
    }
}

/// The stable sort of `s` by key: equal keys keep their order.
pub open spec fn stable_sort<T: SortKey>(s: Seq<T>) -> Seq<T>
    decreases s.len(),
{
    if s.len() == 0 {
        seq![]
    } else {
        insert_in_order(stable_sort(s.drop_last()), s.last())
    }
}

/// Keys never decrease along `s`.
pub open spec fn keys_ascending<T: SortKey>(s: Seq<T>) -> bool {
    forall|i: int, j: int| #![trigger s[i], s[j]] 0 <= i < j < s.len() ==> s[i].key_le(&s[j])
}

proof fn lemma_insert_at<T: SortKey>(s: Seq<T>, x: T, j: int)
    requires
        0 <= j <= s.len(),
        j > 0 ==> s[j - 1].key_le(&x),
        forall|k: int| j <= k < s.len() ==> !(#[trigger] s[k]).key_le(&x),
    ensures
        insert_in_order(s, x) == s.insert(j, x),
    decreases s.len(),
{
    if s.len() == 0 {
        assert(s.insert(j, x) =~= seq![x]);
    } else if s.len() == j {
        assert(s.insert(j, x) =~= s.push(x));
    } else {
        assert(!s.last().key_le(&x));
        lemma_insert_at(s.drop_last(), x, j);
        assert(s.drop_last().insert(j, x).push(s.last()) =~= s.insert(j, x));
    }
}

proof fn lemma_insert_multiset<T: SortKey>(s: Seq<T>, x: T)
    ensures
        insert_in_order(s, x).to_multiset() == s.to_multiset().insert(x),
    decreases s.len(),
{
    if s.len() == 0 {
        assert(seq![x] =~= s.push(x));
    } else if s.last().key_le(&x) {
    } else {
        lemma_insert_multiset(s.drop_last(), x);
        assert(s.drop_last().push(s.last()) =~= s);
        assert(insert_in_order(s, x).to_multiset() =~= s.to_multiset().insert(x));
    }
}

proof fn lemma_insert_ascending<T: SortKey>(s: Seq<T>, x: T)
    requires
        keys_ascending(s),
    ensures
        keys_ascending(insert_in_order(s, x)),
        insert_in_order(s, x).len() == s.len() + 1,
        forall|i: int|
            0 <= i < insert_in_order(s, x).len() ==> #[trigger] insert_in_order(s, x)[i] == x
                || s.contains(insert_in_order(s, x)[i]),
    decreases s.len(),
{
    if s.len() == 0 {
    } else if s.last().key_le(&x) {
        let r = s.push(x);
        assert forall|i: int, j: int| #![trigger r[i], r[j]] 0 <= i < j < r.len() implies r[i].key_le(&r[j]) by {
            if j == r.len() - 1 {
                if i < s.len() - 1 {
                    T::key_transitive(&s[i], &s.last(), &x);
                }
            }
        }
        assert forall|i: int| 0 <= i < r.len() implies #[trigger] r[i] == x || s.contains(r[i]) by {
            if i < s.len() {
                assert(s[i] == r[i]);
            }
        }
    } else {
        let p = s.drop_last();
        let l = s.last();
        assert(keys_ascending(p)) by {
            assert forall|i: int, j: int| #![trigger p[i], p[j]] 0 <= i < j < p.len() implies p[i].key_le(&p[j]) by {
                assert(p[i] == s[i] && p[j] == s[j]);
            }
        }
        lemma_insert_ascending(p, x);
        let q = insert_in_order(p, x);
        let r = q.push(l);
        T::key_total(&l, &x);
        assert forall|i: int, j: int| #![trigger r[i], r[j]] 0 <= i < j < r.len() implies r[i].key_le(&r[j]) by {
            if j == r.len() - 1 {
                assert(r[j] == l);
                assert(r[i] == q[i]);
                if q[i] == x {
                } else {
                    assert(p.contains(q[i]));
                    let k = choose|k: int| 0 <= k < p.len() && p[k] == q[i];
                    assert(s[k] == p[k]);
                    assert(s[s.len() - 1] == l);
                }
            } else {
                assert(r[i] == q[i] && r[j] == q[j]);
            }
        }
        assert forall|i: int| 0 <= i < r.len() implies #[trigger] r[i] == x || s.contains(r[i]) by {
            if i == r.len() - 1 {
                assert(s[s.len() - 1] == l);
            } else {
                assert(r[i] == q[i]);
                if q[i] != x {
                    assert(p.contains(q[i]));
                    let k = choose|k: int| 0 <= k < p.len() && p[k] == q[i];
                    assert(s[k] == p[k]);
                }
            }
        }
    }
}

/// Law: the stable sort holds the same items, with keys in ascending order.
pub proof fn lemma_stable_sort<T: SortKey>(s: Seq<T>)
    ensures
        stable_sort(s).to_multiset() == s.to_multiset(),
        keys_ascending(stable_sort(s)),
        stable_sort(s).len() == s.len(),
    decreases s.len(),
{
    if s.len() > 0 {
        lemma_stable_sort(s.drop_last());
        lemma_insert_multiset(stable_sort(s.drop_last()), s.last());
        lemma_insert_ascending(stable_sort(s.drop_last()), s.last());
        assert(s.drop_last().push(s.last()) =~= s);
    }
}

/// The items in stable order of their keys (`sort_by` on the key).
pub fn sort_by_key<T: SortKey>(items: Vec<T>) -> (res: Vec<T>)
    ensures
        res@ == stable_sort(items@),
{
    let mut rest = items;
    let ghost all = rest@;
    let mut out: Vec<T> = Vec::new();
    let mut taken: usize = 0;
    let n = rest.len();
    while rest.len() > 0
        invariant
            all.len() == n,
            taken + rest@.len() == all.len(),
            rest@ == all.skip(taken as int),
            out@ == stable_sort(all.take(taken as int)),
        decreases rest@.len(),
    {
        let x = rest.remove(0);
        let mut j = out.len();
        while j > 0 && !out[j - 1].key_le_exec(&x)
            invariant
                j <= out@.len(),
                forall|k: int| j <= k < out@.len() ==> !(#[trigger] out@[k]).key_le(&x),
            decreases j,
        {
            j = j - 1;
        }
        proof {
            lemma_insert_at(out@, x, j as int);
            assert(all.take(taken + 1).drop_last() =~= all.take(taken as int));
            assert(all.take(taken + 1).last() == x);
            assert(rest@ =~= all.skip(taken + 1));
        }
        out.insert(j, x);
        taken = taken + 1;
    }
    assert(all.take(taken as int) =~= all);
    out
}

} // verus!
