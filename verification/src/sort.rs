//! Stable sorting: elements that rank the same keep the order they came in.
use vstd::prelude::*;

verus! {

/// A ranking of values by a key.
pub trait Ranked: Sized {
    /// Whether `self` ranks strictly before `other`.
    spec fn ranks_before(&self, other: &Self) -> bool;

    fn before(&self, other: &Self) -> (r: bool)
        ensures
            r == self.ranks_before(other),
    ;
}

/// The position at which `x` goes into `s` so that it follows every element
/// that does not rank after it: the first element that `x` ranks before.
pub open spec fn slot<T: Ranked>(s: Seq<T>, x: T) -> nat
    decreases s.len(),
{
    if s.len() == 0 {
        0
    } else if x.ranks_before(&s[0]) {
        0
    } else {
        1 + slot(s.drop_first(), x)
    }
}

/// `s` sorted stably: each element, in order, goes in after the elements
/// placed before it that it does not rank before.
pub open spec fn stable_sorted<T: Ranked>(s: Seq<T>) -> Seq<T>
    decreases s.len(),
{
    if s.len() == 0 {
        Seq::empty()
    } else {
        let p = stable_sorted(s.drop_last());
        p.insert(slot(p, s.last()) as int, s.last())
    }
}

proof fn lemma_slot_bound<T: Ranked>(s: Seq<T>, x: T)
    ensures
        slot(s, x) <= s.len(),
    decreases s.len(),
{
    if s.len() > 0 {
        lemma_slot_bound(s.drop_first(), x);
    }
}

proof fn lemma_slot_skip<T: Ranked>(s: Seq<T>, x: T, p: int)
    requires
        0 <= p < s.len(),
        forall|k: int| 0 <= k <= p ==> !x.ranks_before(#[trigger] &s[k]),
    ensures
        slot(s, x) == p + 1 + slot(s.skip(p + 1), x),
    decreases p,
{
    let t = s.drop_first();
    if p == 0 {
        assert(t =~= s.skip(1));
    } else {
        assert forall|k: int| 0 <= k <= p - 1 implies !x.ranks_before(#[trigger] &t[k]) by {
            assert(t[k] == s[k + 1]);
        }
        lemma_slot_skip(t, x, p - 1);
        assert(t.skip(p) =~= s.skip(p + 1));
    }
}

fn find_slot<T: Ranked>(v: &Vec<T>, x: &T) -> (r: usize)
    ensures
        r == slot(v@, *x),
        r <= v@.len(),
{
    let mut p: usize = 0;
    while p < v.len() && !x.before(&v[p])
        invariant
            p <= v@.len(),
            forall|k: int| 0 <= k < p ==> !x.ranks_before(#[trigger] &v@[k]),
        decreases v@.len() - p,
    {
        p = p + 1;
    }
    proof {
        lemma_slot_bound(v@, *x);
        if p == 0 {
            if v@.len() > 0 {
                assert(x.ranks_before(&v@[0]));
            }
        } else {
            lemma_slot_skip(v@, *x, p - 1);
            let rest = v@.skip(p as int);
            assert(p as int - 1 + 1 == p as int);
            if rest.len() > 0 {
                assert(rest[0] == v@[p as int]);
            }
        }
    }
    p
}

/// Sorts `v` stably by rank.
pub fn stable_sort<T: Ranked>(v: Vec<T>) -> (r: Vec<T>)
    ensures
        r@ == stable_sorted(v@),
{
    let ghost orig = v@;
    let mut rest = v;
    let mut out: Vec<T> = Vec::new();
    let mut i: usize = 0;
    let n = rest.len();
    while rest.len() > 0
        invariant
            n == orig.len(),
            i + rest@.len() == n,
            rest@ == orig.skip(i as int),
            out@ == stable_sorted(orig.take(i as int)),
        decreases rest@.len(),
    {
        let x = rest.remove(0);
        assert(orig.skip(i as int)[0] == orig[i as int]);
        assert(orig.skip(i as int).remove(0) =~= orig.skip(i + 1));
        assert(orig.take(i + 1).drop_last() =~= orig.take(i as int));
        assert(orig.take(i + 1).last() == orig[i as int]);
        let p = find_slot(&out, &x);
        out.insert(p, x);
        i = i + 1;
    }
    assert(orig.take(n as int) =~= orig);
    out
}

/// The ranking is a strict weak order: irreflexive, transitive, and two
/// values that are not ranked apart rank alike against every third.
pub open spec fn strict_weak_order<T: Ranked>() -> bool {
    &&& forall|a: T| !(#[trigger] a.ranks_before(&a))
    &&& forall|a: T, b: T, c: T|
        #![trigger a.ranks_before(&b), b.ranks_before(&c)]
        a.ranks_before(&b) && b.ranks_before(&c) ==> a.ranks_before(&c)
    &&& forall|a: T, b: T, c: T|
        #![trigger a.ranks_before(&b), a.ranks_before(&c), c.ranks_before(&b)]
        a.ranks_before(&b) ==> a.ranks_before(&c) || c.ranks_before(&b)
}

/// No element ranks before one that comes earlier.
pub open spec fn is_ordered<T: Ranked>(s: Seq<T>) -> bool {
    forall|i: int, j: int| 0 <= i < j < s.len() ==> !(#[trigger] s[j]).ranks_before(#[trigger] &s[i])
}

proof fn lemma_insert_keeps_order<T: Ranked>(s: Seq<T>, x: T)
    requires
        strict_weak_order::<T>(),
        is_ordered(s),
    ensures
        is_ordered(s.insert(slot(s, x) as int, x)),
    decreases s.len(),
{
    lemma_slot_bound(s, x);
    let p = slot(s, x) as int;
    let r = s.insert(p, x);
    if s.len() == 0 {
        return;
    }
    if x.ranks_before(&s[0]) {
        assert(p == 0);
        assert forall|i: int, j: int| 0 <= i < j < r.len() implies !(#[trigger] r[j]).ranks_before(#[trigger] &r[i]) by {
            if i == 0 {
                assert(r[i] == x);
                assert(r[j] == s[j - 1]);
                if s[j - 1].ranks_before(&x) {
                    if j - 1 > 0 {
                        assert(!s[j - 1].ranks_before(&s[0]));
                    }
                    assert(s[j - 1].ranks_before(&s[0]));
                }
            } else {
                assert(r[i] == s[i - 1]);
                assert(r[j] == s[j - 1]);
            }
        }
    } else {
        let t = s.drop_first();
        assert forall|i: int, j: int| 0 <= i < j < t.len() implies !(#[trigger] t[j]).ranks_before(#[trigger] &t[i]) by {
            assert(t[j] == s[j + 1]);
            assert(t[i] == s[i + 1]);
        }
        lemma_insert_keeps_order(t, x);
        let q = slot(t, x) as int;
        assert(p == q + 1);
        let rt = t.insert(q, x);
        assert(r =~= seq![s[0]] + rt);
        assert forall|i: int, j: int| 0 <= i < j < r.len() implies !(#[trigger] r[j]).ranks_before(#[trigger] &r[i]) by {
            if i == 0 {
                assert(r[i] == s[0]);
                assert(r[j] == rt[j - 1]);
                lemma_slot_bound(t, x);
                if j - 1 < q {
                    assert(rt[j - 1] == t[j - 1]);
                    assert(t[j - 1] == s[j]);
                } else if j - 1 == q {
                    assert(rt[j - 1] == x);
                } else {
                    assert(rt[j - 1] == t[j - 2]);
                    assert(t[j - 2] == s[j - 1]);
                }
            } else {
                assert(r[i] == rt[i - 1]);
                assert(r[j] == rt[j - 1]);
            }
        }
    }
}

/// A stably sorted sequence is in order and holds exactly the elements it
/// was made from.
pub proof fn lemma_stable_sorted_ordered<T: Ranked>(s: Seq<T>)
    requires
        strict_weak_order::<T>(),
    ensures
        is_ordered(stable_sorted(s)),
        stable_sorted(s).to_multiset() == s.to_multiset(),
        stable_sorted(s).len() == s.len(),
    decreases s.len(),
{
    broadcast use vstd::seq_lib::group_to_multiset_ensures;
    if s.len() > 0 {
        let p = stable_sorted(s.drop_last());
        lemma_stable_sorted_ordered(s.drop_last());
        lemma_slot_bound(p, s.last());
        lemma_insert_keeps_order(p, s.last());
        vstd::seq_lib::lemma_seq_union_to_multiset_commutative(s.drop_last(), seq![s.last()]);
        assert(s.drop_last() + seq![s.last()] =~= s);
        vstd::seq_lib::lemma_multiset_commutative(s.drop_last(), seq![s.last()]);
        assert(p.insert(slot(p, s.last()) as int, s.last()).to_multiset() == p.to_multiset().insert(s.last()));
    }
}

} // verus!
