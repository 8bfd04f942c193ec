//! Stable sorting by a rank.

use vstd::prelude::*;

verus! {

/// Values that are listed in some order.
pub trait Ranked: Sized {
    /// Whether the value has to stand before another one.
    spec fn before(self, other: Self) -> bool;

    /// Two values do not both have to stand before each other.
    proof fn lemma_asymmetric(a: Self, b: Self)
        ensures
            a.before(b) ==> !b.before(a),
    ;

    /// Where `b` may stand behind `a` and `c` behind `b`, `c` may stand behind `a`.
    proof fn lemma_transitive(a: Self, b: Self, c: Self)
        ensures
            !b.before(a) && !c.before(b) ==> !c.before(a),
    ;
}

/// Values whose order can be computed.
pub trait Comparable: Ranked {
    fn comes_before(&self, other: &Self) -> (r: bool)
        ensures
            r == self.before(*other),
    ;
}

/// The list with `x` put in its place, behind all values of the same rank.
pub open spec fn insert_ranked<T: Ranked>(s: Seq<T>, x: T) -> Seq<T>
    decreases s.len(),
{
    if s.len() > 0 && x.before(s.last()) {
        insert_ranked(s.drop_last(), x).push(s.last())
    } else {
        s.push(x)
    }
}

/// The list in order. Values of the same rank keep the order they came in.
pub open spec fn ranked<T: Ranked>(s: Seq<T>) -> Seq<T>
    decreases s.len(),
{
    if s.len() == 0 {
        Seq::empty()
    } else {
        insert_ranked(ranked(s.drop_last()), s.last())
    }
}

/// Whether no value stands behind one that it has to stand before.
pub open spec fn in_order<T: Ranked>(s: Seq<T>) -> bool {
    forall|i: int, j: int| 0 <= i < j < s.len() ==> !(#[trigger] s[j]).before(#[trigger] s[i])
}

proof fn lemma_insert_ranked<T: Ranked>(s: Seq<T>, x: T)
    requires
        in_order(s),
    ensures
        in_order(insert_ranked(s, x)),
        insert_ranked(s, x).len() == s.len() + 1,
        insert_ranked(s, x).to_multiset() == s.to_multiset().insert(x),
        forall|i: int|
            0 <= i < insert_ranked(s, x).len() ==> (#[trigger] insert_ranked(s, x)[i]) == x
                || s.contains(insert_ranked(s, x)[i]),
    decreases s.len(),
{
    broadcast use vstd::seq_lib::group_to_multiset_ensures;

    let r = insert_ranked(s, x);
    if s.len() > 0 && x.before(s.last()) {
        let t = s.drop_last();
        let last = s.last();
        lemma_insert_ranked(t, x);
        let u = insert_ranked(t, x);
        assert(r == u.push(last));
        assert(s =~= t.push(last));
        assert(r.to_multiset() =~= s.to_multiset().insert(x));
        assert forall|i: int| 0 <= i < r.len() implies (#[trigger] r[i]) == x || s.contains(r[i]) by {
            if i < u.len() {
                if u[i] != x {
                    let k = choose|k: int| 0 <= k < t.len() && t[k] == u[i];
                    assert(s[k] == r[i]);
                }
            } else {
                assert(s[s.len() - 1] == r[i]);
            }
        }
        assert forall|i: int, j: int| 0 <= i < j < r.len() implies !(#[trigger] r[j]).before(
            #[trigger] r[i],
        ) by {
            if j < u.len() {
                assert(!u[j].before(u[i]));
            } else if u[i] == x {
                T::lemma_asymmetric(x, last);
            } else {
                assert(t.contains(u[i]));
                let k = choose|k: int| 0 <= k < t.len() && t[k] == u[i];
                assert(!s[s.len() - 1].before(s[k]));
            }
        }
    } else {
        assert forall|i: int| 0 <= i < r.len() implies (#[trigger] r[i]) == x || s.contains(r[i]) by {
            if i < s.len() {
                assert(s[i] == r[i]);
            }
        }
        assert forall|i: int, j: int| 0 <= i < j < r.len() implies !(#[trigger] r[j]).before(
            #[trigger] r[i],
        ) by {
            if j == s.len() {
                let l = s.len() - 1;
                if i < l {
                    assert(!s[l].before(s[i]));
                    T::lemma_transitive(s[i], s[l], x);
                }
            } else {
                assert(!s[j].before(s[i]));
            }
        }
    }
}

/// Sorting puts a list in order and neither adds, drops nor changes a value.
pub proof fn lemma_ranked<T: Ranked>(s: Seq<T>)
    ensures
        in_order(ranked(s)),
        ranked(s).len() == s.len(),
        ranked(s).to_multiset() == s.to_multiset(),
    decreases s.len(),
{
    broadcast use vstd::seq_lib::group_to_multiset_ensures;

    if s.len() > 0 {
        lemma_ranked(s.drop_last());
        lemma_insert_ranked(ranked(s.drop_last()), s.last());
        assert(s =~= s.drop_last().push(s.last()));
    } else {
        assert(s =~= Seq::<T>::empty());
    }
}

proof fn lemma_insert_map<T: Ranked, U: Ranked>(s: Seq<T>, x: T, f: spec_fn(T) -> U)
    requires
        forall|a: T, b: T| #[trigger] a.before(b) == f(a).before(f(b)),
    ensures
        insert_ranked(s, x).map_values(f) == insert_ranked(s.map_values(f), f(x)),
    decreases s.len(),
{
    let t = s.map_values(f);
    if s.len() > 0 && x.before(s.last()) {
        lemma_insert_map(s.drop_last(), x, f);
        assert(t.drop_last() =~= s.drop_last().map_values(f));
        assert(insert_ranked(s, x).map_values(f) =~= insert_ranked(s.drop_last(), x).map_values(
            f,
        ).push(f(s.last())));
    } else {
        if s.len() > 0 {
            assert(t.last() == f(s.last()));
        }
        assert(s.push(x).map_values(f) =~= t.push(f(x)));
    }
}

/// Sorting looks at nothing but the rank: it commutes with every map that keeps
/// the rank.
pub proof fn lemma_ranked_map<T: Ranked, U: Ranked>(s: Seq<T>, f: spec_fn(T) -> U)
    requires
        forall|a: T, b: T| #[trigger] a.before(b) == f(a).before(f(b)),
    ensures
        ranked(s).map_values(f) == ranked(s.map_values(f)),
    decreases s.len(),
{
    let t = s.map_values(f);
    if s.len() > 0 {
        lemma_ranked_map(s.drop_last(), f);
        lemma_insert_map(ranked(s.drop_last()), s.last(), f);
        assert(t.drop_last() =~= s.drop_last().map_values(f));
    } else {
        assert(ranked(s).map_values(f) =~= ranked(t));
    }
}

proof fn lemma_insert_position<T: Ranked>(s: Seq<T>, x: T, p: int)
    requires
        0 <= p <= s.len(),
        p > 0 ==> !x.before(s[p - 1]),
        forall|i: int| p <= i < s.len() ==> x.before(#[trigger] s[i]),
    ensures
        insert_ranked(s, x) == s.insert(p, x),
    decreases s.len(),
{
    if p < s.len() {
        let t = s.drop_last();
        assert(x.before(s[s.len() - 1]));
        lemma_insert_position(t, x, p);
        assert(s.insert(p, x) =~= t.insert(p, x).push(s.last()));
    } else {
        assert(s.insert(p, x) =~= s.push(x));
    }
}

/// Puts a value in its place of a list.
pub fn insert_in_rank<T: Comparable>(list: &mut Vec<T>, x: T)
    ensures
        final(list)@ == insert_ranked(old(list)@, x),
{
    let ghost before = list@;
    let mut p: usize = list.len();
    while p > 0 && x.comes_before(&list[p - 1])
        invariant
            p <= list@.len(),
            list@ == before,
            forall|i: int| p <= i < list@.len() ==> x.before(#[trigger] list@[i]),
        decreases p,
    {
        p = p - 1;
    }
    proof {
        lemma_insert_position(list@, x, p as int);
    }
    list.insert(p, x);
}

/// Sorts a list by rank.
pub fn sort_ranked<T: Comparable>(list: Vec<T>) -> (r: Vec<T>)
    ensures
        r@ == ranked(list@),
{
    let ghost all = list@;
    let n: usize = list.len();
    let mut rest = list;
    let mut out: Vec<T> = Vec::new();
    let mut taken: usize = 0;
    proof {
        assert(all.take(0) =~= Seq::<T>::empty());
        assert(all.skip(0) =~= all);
    }
    while taken < n
        invariant
            taken <= n,
            n == all.len(),
            rest@ == all.skip(taken as int),
            out@ == ranked(all.take(taken as int)),
        decreases n - taken,
    {
        let x = rest.remove(0);
        proof {
            assert(all.take(taken + 1).drop_last() =~= all.take(taken as int));
            assert(all.take(taken + 1).last() == x);
            assert(all.skip(taken as int).remove(0) =~= all.skip(taken + 1));
        }
        insert_in_rank(&mut out, x);
        taken = taken + 1;
    }
    proof {
        assert(all.take(taken as int) =~= all);
    }
    out
}

} // verus!
