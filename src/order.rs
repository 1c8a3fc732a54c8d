use vstd::prelude::*;

verus! {

/// A row that listings order: `precedes` holds when the row's key is
/// strictly greater than the other's (descending) or strictly smaller
/// (ascending).
pub trait Keyed: Sized {
    spec fn precedes(&self, other: &Self, desc: bool) -> bool;

    fn check_precedes(&self, other: &Self, desc: bool) -> (b: bool)
        ensures
            b == self.precedes(other, desc),
    ;

    /// `precedes` is a strict order: irreflexive and transitive.
    proof fn lemma_strict_order(a: Self, b: Self, c: Self, desc: bool)
        ensures
            !a.precedes(&a, desc),
            a.precedes(&b, desc) && b.precedes(&c, desc) ==> a.precedes(&c, desc),
    ;
}

/// Whether `x` goes strictly before `y` in the given direction.
pub open spec fn goes_before<T: Keyed>(x: T, y: T, desc: bool) -> bool {
    x.precedes(&y, desc)
}

/// `s` with `x` placed after every element that it does not go before.
pub open spec fn insert_ordered<T: Keyed>(x: T, s: Seq<T>, desc: bool) -> Seq<T>
    decreases s.len(),
{
    if s.len() == 0 {
        seq![x]
    } else if goes_before(x, s[0], desc) {
        seq![x] + s
    } else {
        seq![s[0]] + insert_ordered(x, s.drop_first(), desc)
    }
}

/// `s` ordered by key, descending or ascending; rows with equal keys keep
/// their order.
pub open spec fn sort_by_key<T: Keyed>(s: Seq<T>, desc: bool) -> Seq<T>
    decreases s.len(),
{
    if s.len() == 0 {
        s
    } else {
        insert_ordered(s.last(), sort_by_key(s.drop_last(), desc), desc)
    }
}

/// Placing `x` at the first position `p` whose element it goes before is
/// what `insert_ordered` does.
pub proof fn lemma_insert_at<T: Keyed>(x: T, s: Seq<T>, desc: bool, p: int)
    requires
        0 <= p <= s.len(),
        forall|j: int| 0 <= j < p ==> !goes_before(x, #[trigger] s[j], desc),
        p < s.len() ==> goes_before(x, s[p], desc),
    ensures
        insert_ordered(x, s, desc) == s.insert(p, x),
    decreases p,
{
    if s.len() == 0 {
        assert(s.insert(p, x) =~= seq![x]);
    } else if p == 0 {
        assert(s.insert(p, x) =~= seq![x] + s);
    } else {
        let t = s.drop_first();
        assert forall|j: int| 0 <= j < p - 1 implies !goes_before(x, #[trigger] t[j], desc) by {
            assert(t[j] == s[j + 1]);
        }
        lemma_insert_at(x, t, desc, p - 1);
        assert(s.insert(p, x) =~= seq![s[0]] + t.insert(p - 1, x));
    }
}

/// Inserts `x` into `v` where `insert_ordered` places it.
pub fn insert_by_key<T: Keyed>(v: &mut Vec<T>, x: T, desc: bool)
    ensures
        final(v)@ == insert_ordered(x, old(v)@, desc),
{
    let mut p: usize = 0;
    while p < v.len()
        invariant
            p <= v.len(),
            v@ == old(v)@,
            forall|j: int| 0 <= j < p ==> !goes_before(x, #[trigger] v@[j], desc),
        ensures
            p <= v.len(),
            v@ == old(v)@,
            forall|j: int| 0 <= j < p ==> !goes_before(x, #[trigger] v@[j], desc),
            p < v.len() ==> goes_before(x, v@[p as int], desc),
        decreases v.len() - p,
    {
        if x.check_precedes(&v[p], desc) {
            break;
        }
        p = p + 1;
    }
    proof {
        lemma_insert_at(x, v@, desc, p as int);
    }
    v.insert(p, x);
}

/// Ordered insertion adds `x` and keeps every element.
pub proof fn lemma_insert_ordered_multiset<T: Keyed>(x: T, s: Seq<T>, desc: bool)
    ensures
        insert_ordered(x, s, desc).to_multiset() == s.to_multiset().insert(x),
    decreases s.len(),
{
    broadcast use vstd::seq_lib::to_multiset_insert;

    if s.len() == 0 {
        assert(seq![x] =~= s.insert(0, x));
    } else if goes_before(x, s[0], desc) {
        assert(seq![x] + s =~= s.insert(0, x));
    } else {
        let t = s.drop_first();
        lemma_insert_ordered_multiset(x, t, desc);
        let u = insert_ordered(x, t, desc);
        assert(seq![s[0]] + u =~= u.insert(0, s[0]));
        assert(s =~= t.insert(0, s[0]));
        assert(insert_ordered(x, s, desc).to_multiset() =~= s.to_multiset().insert(x));
    }
}

/// Sorting keeps exactly the elements of the input.
pub proof fn lemma_sort_multiset<T: Keyed>(s: Seq<T>, desc: bool)
    ensures
        sort_by_key(s, desc).to_multiset() == s.to_multiset(),
    decreases s.len(),
{
    broadcast use vstd::seq_lib::to_multiset_build;

    if s.len() > 0 {
        lemma_sort_multiset(s.drop_last(), desc);
        lemma_insert_ordered_multiset(s.last(), sort_by_key(s.drop_last(), desc), desc);
        assert(s =~= s.drop_last().push(s.last()));
    }
}

/// An element is in the sorted sequence exactly when it is in the input.
pub proof fn lemma_sort_contains<T: Keyed>(s: Seq<T>, desc: bool, a: T)
    ensures
        sort_by_key(s, desc).contains(a) <==> s.contains(a),
{
    lemma_sort_multiset(s, desc);
    vstd::seq_lib::to_multiset_contains(s, a);
    vstd::seq_lib::to_multiset_contains(sort_by_key(s, desc), a);
}

/// Filtering never adds copies of an element.
pub proof fn lemma_filter_count<A>(s: Seq<A>, pred: spec_fn(A) -> bool, a: A)
    ensures
        s.filter(pred).to_multiset().count(a) <= s.to_multiset().count(a),
    decreases s.len(),
{
    broadcast use vstd::seq_lib::to_multiset_build;
    broadcast use vstd::multiset::group_multiset_axioms;

    reveal(Seq::filter);
    if s.len() > 0 {
        lemma_filter_count(s.drop_last(), pred, a);
        assert(s =~= s.drop_last().push(s.last()));
    }
}

/// An element held at two places is counted at least twice.
pub proof fn lemma_count_two<A>(s: Seq<A>, k1: int, k2: int)
    requires
        0 <= k1 < s.len(),
        0 <= k2 < s.len(),
        k1 != k2,
        s[k1] == s[k2],
    ensures
        s.to_multiset().count(s[k1]) >= 2,
{
    broadcast use vstd::multiset::group_multiset_axioms;

    let r = s.remove(k1);
    vstd::seq_lib::to_multiset_remove(s, k1);
    let j = if k2 < k1 {
        k2
    } else {
        k2 - 1
    };
    assert(r[j] == s[k1]);
    vstd::seq_lib::to_multiset_contains(r, s[k1]);
}

/// An element held at `i` and nowhere else is counted once.
pub proof fn lemma_count_one<A>(s: Seq<A>, i: int)
    requires
        0 <= i < s.len(),
        forall|j: int| 0 <= j < s.len() && j != i ==> s[j] != s[i],
    ensures
        s.to_multiset().count(s[i]) == 1,
{
    broadcast use vstd::multiset::group_multiset_axioms;

    let r = s.remove(i);
    vstd::seq_lib::to_multiset_remove(s, i);
    assert(s.contains(s[i]));
    vstd::seq_lib::to_multiset_contains(s, s[i]);
    if r.contains(s[i]) {
        let j = choose|j: int| 0 <= j < r.len() && r[j] == s[i];
        if j < i {
            assert(s[j] == s[i]);
        } else {
            assert(s[j + 1] == s[i]);
        }
    }
    vstd::seq_lib::to_multiset_contains(r, s[i]);
}

/// No element of `s` goes before an earlier one.
pub open spec fn is_ordered<T: Keyed>(s: Seq<T>, desc: bool) -> bool {
    forall|i: int, j: int| 0 <= i < j < s.len() ==> !goes_before(s[j], s[i], desc)
}

/// Ordered insertion into an ordered sequence gives an ordered sequence.
pub proof fn lemma_insert_ordered_sorted<T: Keyed>(x: T, s: Seq<T>, desc: bool)
    requires
        is_ordered(s, desc),
    ensures
        is_ordered(insert_ordered(x, s, desc), desc),
    decreases s.len(),
{
    let r = insert_ordered(x, s, desc);
    if s.len() == 0 {
    } else if goes_before(x, s[0], desc) {
        assert forall|i: int, j: int| 0 <= i < j < r.len() implies !goes_before(r[j], r[i], desc) by {
            if i == 0 {
                let y = s[j - 1];
                T::lemma_strict_order(y, x, s[0], desc);
                T::lemma_strict_order(s[0], s[0], s[0], desc);
                if j - 1 > 0 {
                    assert(!goes_before(s[j - 1], s[0], desc));
                }
            } else {
                assert(r[i] == s[i - 1] && r[j] == s[j - 1]);
            }
        }
    } else {
        let t = s.drop_first();
        assert forall|i: int, j: int| 0 <= i < j < t.len() implies !goes_before(t[j], t[i], desc) by {
            assert(t[i] == s[i + 1] && t[j] == s[j + 1]);
        }
        lemma_insert_ordered_sorted(x, t, desc);
        let u = insert_ordered(x, t, desc);
        lemma_insert_ordered_multiset(x, t, desc);
        assert forall|i: int, j: int| 0 <= i < j < r.len() implies !goes_before(r[j], r[i], desc) by {
            if i == 0 {
                let y = u[j - 1];
                assert(u.contains(y));
                vstd::seq_lib::to_multiset_contains(u, y);
                vstd::seq_lib::to_multiset_contains(t, y);
                if y != x {
                    assert(t.to_multiset().count(y) > 0);
                    let k = choose|k: int| 0 <= k < t.len() && t[k] == y;
                    assert(s[k + 1] == y);
                }
            } else {
                assert(r[i] == u[i - 1] && r[j] == u[j - 1]);
            }
        }
    }
}

/// Sorting by key gives an ordered sequence.
pub proof fn lemma_sort_ordered<T: Keyed>(s: Seq<T>, desc: bool)
    ensures
        is_ordered(sort_by_key(s, desc), desc),
    decreases s.len(),
{
    if s.len() > 0 {
        lemma_sort_ordered(s.drop_last(), desc);
        lemma_insert_ordered_sorted(s.last(), sort_by_key(s.drop_last(), desc), desc);
    }
}

/// An element of a filtered and sorted sequence is an element of the input
/// that passes the filter.
pub proof fn lemma_sort_filter_member<T: Keyed>(s: Seq<T>, pred: spec_fn(T) -> bool, desc: bool, y: T)
    requires
        sort_by_key(s.filter(pred), desc).contains(y),
    ensures
        s.contains(y),
        pred(y),
{
    let f = s.filter(pred);
    lemma_sort_contains(f, desc, y);
    let j = choose|j: int| 0 <= j < f.len() && f[j] == y;
    s.lemma_filter_pred(pred, j);
    vstd::seq_lib::to_multiset_contains(f, y);
    lemma_filter_count(s, pred, y);
    vstd::seq_lib::to_multiset_contains(s, y);
}

/// An element of a filtered sequence is an element of the input that
/// passes the filter.
pub proof fn lemma_filter_member<A>(s: Seq<A>, pred: spec_fn(A) -> bool, k: int)
    requires
        0 <= k < s.filter(pred).len(),
    ensures
        s.contains(s.filter(pred)[k]),
        pred(s.filter(pred)[k]),
{
    let y = s.filter(pred)[k];
    s.lemma_filter_pred(pred, k);
    assert(s.filter(pred).contains(y));
    vstd::seq_lib::to_multiset_contains(s.filter(pred), y);
    lemma_filter_count(s, pred, y);
    vstd::seq_lib::to_multiset_contains(s, y);
}

/// Filtering keeps a sequence whose elements all pass, and empties one whose
/// elements all fail.
pub proof fn lemma_filter_all_or_none<A>(s: Seq<A>, pred: spec_fn(A) -> bool)
    ensures
        (forall|i: int| 0 <= i < s.len() ==> pred(#[trigger] s[i])) ==> s.filter(pred) == s,
        (forall|i: int| 0 <= i < s.len() ==> !pred(#[trigger] s[i])) ==> s.filter(pred).len() == 0,
    decreases s.len(),
{
    reveal(Seq::filter);
    if s.len() > 0 {
        let t = s.drop_last();
        lemma_filter_all_or_none(t, pred);
        if forall|i: int| 0 <= i < s.len() ==> pred(#[trigger] s[i]) {
            assert forall|i: int| 0 <= i < t.len() implies pred(#[trigger] t[i]) by {
                assert(t[i] == s[i]);
            }
            assert(t.push(s.last()) =~= s);
        }
        if forall|i: int| 0 <= i < s.len() ==> !pred(#[trigger] s[i]) {
            assert forall|i: int| 0 <= i < t.len() implies !pred(#[trigger] t[i]) by {
                assert(t[i] == s[i]);
            }
        }
    }
}

} // verus!
