//! A stable insertion sort over any type with a strict "goes before" order.
use vstd::prelude::*;

verus! {

/// A strict order in which to list values: `a.before(b)` when `a` must come
/// ahead of `b`. Values where neither comes before the other keep the order
/// in which they were given.
pub trait SortOrder: Sized {
    spec fn spec_before(&self, other: &Self) -> bool;

    fn before(&self, other: &Self) -> (r: bool)
        ensures
            r == self.spec_before(other),
    ;

    proof fn lemma_asymmetric(a: &Self, b: &Self)
        ensures
            a.spec_before(b) ==> !b.spec_before(a),
    ;
}

/// Where `x` goes in `s`: ahead of the first element that it comes before.
pub open spec fn insert_pos<T: SortOrder>(s: Seq<T>, x: T) -> int
    decreases s.len(),
{
    if s.len() == 0 {
        0
    } else if x.spec_before(&s[0]) {
        0
    } else {
        1 + insert_pos(s.skip(1), x)
    }
}

pub open spec fn insert_sorted<T: SortOrder>(s: Seq<T>, x: T) -> Seq<T> {
    s.insert(insert_pos(s, x), x)
}

/// `s` sorted stably: each element in turn is placed after every element
/// that it does not come before.
pub open spec fn sort_spec<T: SortOrder>(s: Seq<T>) -> Seq<T>
    decreases s.len(),
{
    if s.len() == 0 {
        Seq::empty()
    } else {
        insert_sorted(sort_spec(s.drop_last()), s.last())
    }
}

/// No element comes before the one ahead of it.
pub open spec fn is_sorted<T: SortOrder>(s: Seq<T>) -> bool {
    forall|i: int| 0 <= i < s.len() - 1 ==> !(#[trigger] s[i + 1]).spec_before(&s[i])
}

/// Where `x` goes: within bounds, after every element it does not come
/// before, and ahead of an element it comes before.
pub proof fn lemma_insert_pos<T: SortOrder>(s: Seq<T>, x: T)
    ensures
        0 <= insert_pos(s, x) <= s.len(),
        forall|k: int| 0 <= k < insert_pos(s, x) ==> !x.spec_before(&s[k]),
        insert_pos(s, x) < s.len() ==> x.spec_before(&s[insert_pos(s, x)]),
    decreases s.len(),
{
    if s.len() > 0 && !x.spec_before(&s[0]) {
        lemma_insert_pos(s.skip(1), x);
        assert forall|k: int| 0 <= k < insert_pos(s, x) implies !x.spec_before(&s[k]) by {
            if k > 0 {
                assert(s[k] == s.skip(1)[k - 1]);
            }
        }
    }
}

proof fn lemma_insert_pos_unique<T: SortOrder>(s: Seq<T>, x: T, j: int)
    requires
        0 <= j <= s.len(),
        forall|k: int| 0 <= k < j ==> !x.spec_before(&s[k]),
        j < s.len() ==> x.spec_before(&s[j]),
    ensures
        insert_pos(s, x) == j,
    decreases s.len(),
{
    if s.len() > 0 && j > 0 {
        assert forall|k: int| 0 <= k < j - 1 implies !x.spec_before(&s.skip(1)[k]) by {
            assert(s.skip(1)[k] == s[k + 1]);
        }
        lemma_insert_pos_unique(s.skip(1), x, j - 1);
    }
}

/// Inserting into a sorted sequence keeps it sorted.
pub proof fn lemma_insert_sorted<T: SortOrder>(s: Seq<T>, x: T)
    requires
        is_sorted(s),
    ensures
        is_sorted(insert_sorted(s, x)),
        insert_sorted(s, x).len() == s.len() + 1,
{
    lemma_insert_pos(s, x);
    let p = insert_pos(s, x);
    let r = insert_sorted(s, x);
    assert forall|i: int| 0 <= i < r.len() - 1 implies !(#[trigger] r[i + 1]).spec_before(&r[i]) by {
        if i + 1 < p {
            assert(r[i] == s[i] && r[i + 1] == s[i + 1]);
            assert(!s[i + 1].spec_before(&s[i]));
        } else if i + 1 == p {
            assert(r[i] == s[i] && r[i + 1] == x);
            assert(!x.spec_before(&s[i]));
        } else if i == p {
            assert(r[i] == x && r[i + 1] == s[i]);
            T::lemma_asymmetric(&x, &s[i]);
        } else {
            assert(r[i] == s[i - 1] && r[i + 1] == s[i]);
            assert(!s[(i - 1) + 1].spec_before(&s[i - 1]));
        }
    }
}

/// Inserting adds `x` and keeps every element already there.
pub proof fn lemma_insert_sorted_contains<T: SortOrder>(s: Seq<T>, x: T, y: T)
    ensures
        insert_sorted(s, x).contains(y) <==> (s.contains(y) || y == x),
        insert_sorted(s, x).len() == s.len() + 1,
{
    lemma_insert_pos(s, x);
    let p = insert_pos(s, x);
    let r = insert_sorted(s, x);
    if r.contains(y) {
        let k = choose|k: int| 0 <= k < r.len() && r[k] == y;
        if k < p {
            assert(s[k] == y);
        } else if k > p {
            assert(s[k - 1] == y);
        }
    }
    if s.contains(y) {
        let k = choose|k: int| 0 <= k < s.len() && s[k] == y;
        if k < p {
            assert(r[k] == y);
        } else {
            assert(r[k + 1] == y);
        }
    }
    assert(r[p] == x);
}

/// The stable sort yields a sorted sequence of the same length.
pub proof fn lemma_sort_sorted<T: SortOrder>(s: Seq<T>)
    ensures
        is_sorted(sort_spec(s)),
        sort_spec(s).len() == s.len(),
    decreases s.len(),
{
    if s.len() > 0 {
        lemma_sort_sorted(s.drop_last());
        lemma_insert_sorted(sort_spec(s.drop_last()), s.last());
    }
}

/// Every element of the sorted sequence comes from the input.
pub proof fn lemma_sort_members<T: SortOrder>(s: Seq<T>)
    ensures
        forall|i: int| 0 <= i < sort_spec(s).len() ==> s.contains(#[trigger] sort_spec(s)[i]),
        forall|i: int| 0 <= i < s.len() ==> sort_spec(s).contains(#[trigger] s[i]),
    decreases s.len(),
{
    lemma_sort_sorted(s);
    if s.len() > 0 {
        let t = s.drop_last();
        lemma_sort_members(t);
        lemma_sort_sorted(t);
        lemma_insert_pos(sort_spec(t), s.last());
        let p = insert_pos(sort_spec(t), s.last());
        let r = sort_spec(s);
        assert forall|i: int| 0 <= i < r.len() implies s.contains(#[trigger] r[i]) by {
            if i < p {
                assert(r[i] == sort_spec(t)[i]);
                let k = choose|k: int| 0 <= k < t.len() && t[k] == r[i];
                assert(s[k] == r[i]);
            } else if i == p {
                assert(s[s.len() - 1] == r[i]);
            } else {
                assert(r[i] == sort_spec(t)[i - 1]);
                let k = choose|k: int| 0 <= k < t.len() && t[k] == r[i];
                assert(s[k] == r[i]);
            }
        }
        assert forall|i: int| 0 <= i < s.len() implies r.contains(#[trigger] s[i]) by {
            if i < s.len() - 1 {
                assert(t[i] == s[i]);
                let k = choose|k: int| 0 <= k < sort_spec(t).len() && sort_spec(t)[k] == t[i];
                if k < p {
                    assert(r[k] == s[i]);
                } else {
                    assert(r[k + 1] == s[i]);
                }
            } else {
                assert(r[p] == s[i]);
            }
        }
    }
}

/// Places `x` in `v` ahead of the first element that it comes before.
pub fn insert_sorted_vec<T: SortOrder>(v: &mut Vec<T>, x: T)
    ensures
        final(v)@ == insert_sorted(old(v)@, x),
{
    let mut j: usize = 0;
    while j < v.len() && !x.before(&v[j])
        invariant
            j <= v@.len(),
            v@ == old(v)@,
            forall|k: int| 0 <= k < j ==> !x.spec_before(&v@[k]),
        decreases v@.len() - j,
    {
        j = j + 1;
    }
    proof {
        lemma_insert_pos_unique(v@, x, j as int);
    }
    v.insert(j, x);
}

/// Sorts `v` stably by the order of `T`.
pub fn sort_stable<T: SortOrder>(v: Vec<T>) -> (r: Vec<T>)
    ensures
        r@ == sort_spec(v@),
{
    let ghost orig = v@;
    let mut src = v;
    let mut out: Vec<T> = Vec::new();
    let n = src.len();
    let mut i: usize = 0;
    assert(orig.take(0) =~= Seq::<T>::empty());
    while i < n
        invariant
            n == orig.len(),
            i <= n,
            src@ == orig.skip(i as int),
            out@ == sort_spec(orig.take(i as int)),
        decreases n - i,
    {
        let x = src.remove(0);
        assert(x == orig[i as int]);
        proof {
            assert(orig.take(i + 1).drop_last() =~= orig.take(i as int));
            assert(src@ =~= orig.skip(i + 1));
        }
        insert_sorted_vec(&mut out, x);
        i = i + 1;
    }
    assert(orig.take(n as int) =~= orig);
    out
}

} // verus!
