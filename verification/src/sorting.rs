//! Sorting of keys by a strict total order on their views.
use crate::keyed::{AssocMap, KeyView};
use crate::selector::views_of;
use vstd::prelude::*;
use vstd::relations::{sorted_by, total_ordering};

verus! {

/// Keys with a strict total order on their views.
pub trait StrictOrder: KeyView + Sized {
    /// True when view `a` comes strictly before view `b`.
    spec fn spec_before(a: Self::V, b: Self::V) -> bool;

    /// No view comes before itself.
    proof fn lemma_before_irreflexive(a: Self::V)
        ensures
            !Self::spec_before(a, a),
    ;

    /// The order is transitive.
    proof fn lemma_before_transitive(a: Self::V, b: Self::V, c: Self::V)
        requires
            Self::spec_before(a, b),
            Self::spec_before(b, c),
        ensures
            Self::spec_before(a, c),
    ;

    /// Two distinct views are ordered one way or the other.
    proof fn lemma_before_total(a: Self::V, b: Self::V)
        requires
            a != b,
        ensures
            Self::spec_before(a, b) || Self::spec_before(b, a),
    ;

    /// True when `self` comes strictly before `other`.
    fn before(&self, other: &Self) -> (r: bool)
        ensures
            r == Self::spec_before(self@, other@),
    ;
}

/// The order of `T`, equal views included.
pub open spec fn leq_by<T: StrictOrder>() -> spec_fn(T::V, T::V) -> bool {
    |a: T::V, b: T::V| T::spec_before(a, b) || a == b
}

/// The order of `T`, equal views included, is total.
pub proof fn lemma_leq_by_total_ordering<T: StrictOrder>()
    ensures
        total_ordering(leq_by::<T>()),
{
    assert forall|a: T::V, b: T::V|
        #[trigger] leq_by::<T>()(a, b) && #[trigger] leq_by::<T>()(b, a) implies a == b by {
        if a != b {
            T::lemma_before_transitive(a, b, a);
            T::lemma_before_irreflexive(a);
        }
    }
    assert forall|a: T::V, b: T::V, c: T::V|
        #[trigger] leq_by::<T>()(a, b) && #[trigger] leq_by::<T>()(b, c) implies leq_by::<T>()(
        a,
        c,
    ) by {
        if a != b && b != c {
            T::lemma_before_transitive(a, b, c);
        }
    }
    assert forall|a: T::V, b: T::V| #[trigger] leq_by::<T>()(a, b) || #[trigger] leq_by::<T>()(b, a) by {
        if a != b {
            T::lemma_before_total(a, b);
        }
    }
}

/// Copies of the keys of `v` in increasing order, repeated views kept.
pub fn sort_keys<T: StrictOrder>(v: &Vec<T>) -> (r: Vec<T>)
    ensures
        views_of(r@) == views_of(v@).sort_by(leq_by::<T>()),
{
    let ghost src = views_of(v@);
    let mut r: Vec<T> = Vec::new();
    let mut i: usize = 0;
    proof {
        assert(views_of(r@) =~= src.subrange(0, 0));
        lemma_leq_by_total_ordering::<T>();
    }
    while i < v.len()
        invariant
            i <= v@.len(),
            src == views_of(v@),
            total_ordering(leq_by::<T>()),
            sorted_by(views_of(r@), leq_by::<T>()),
            views_of(r@).to_multiset() == src.subrange(0, i as int).to_multiset(),
        decreases v@.len() - i,
    {
        let x = &v[i];
        let mut p: usize = 0;
        while p < r.len() && !x.before(&r[p])
            invariant
                p <= r@.len(),
                forall|q: int| 0 <= q < p ==> !T::spec_before(x@, #[trigger] views_of(r@)[q]),
            decreases r@.len() - p,
        {
            p = p + 1;
        }
        let ghost old_r = views_of(r@);
        proof {
            assert forall|q: int| 0 <= q < p implies #[trigger] leq_by::<T>()(old_r[q], x@) by {
                if old_r[q] != x@ {
                    T::lemma_before_total(old_r[q], x@);
                }
            }
            if p < old_r.len() {
                assert(T::spec_before(x@, old_r[p as int]));
                assert forall|q: int| p <= q < old_r.len() implies #[trigger] leq_by::<T>()(
                    x@,
                    old_r[q],
                ) by {
                    if q > p {
                        assert(leq_by::<T>()(old_r[p as int], old_r[q]));
                        if old_r[p as int] != old_r[q] {
                            T::lemma_before_transitive(x@, old_r[p as int], old_r[q]);
                        }
                    }
                }
            }
        }
        r.insert(p, x.copy_key());
        proof {
            let nr = views_of(r@);
            assert(nr =~= old_r.insert(p as int, x@));
            assert forall|a: int, b: int| 0 <= a < b < nr.len() implies #[trigger] leq_by::<T>()(
                nr[a],
                nr[b],
            ) by {
                if b < p {
                    assert(leq_by::<T>()(old_r[a], old_r[b]));
                } else if b == p {
                    assert(leq_by::<T>()(old_r[a], x@));
                } else if a < p {
                    assert(nr[b] == old_r[b - 1]);
                    assert(leq_by::<T>()(old_r[a], x@));
                    assert(leq_by::<T>()(x@, old_r[b - 1]));
                } else if a == p {
                    assert(nr[b] == old_r[b - 1]);
                } else {
                    assert(leq_by::<T>()(old_r[a - 1], old_r[b - 1]));
                }
            }
            assert(src.subrange(0, i + 1) =~= src.subrange(0, i as int).push(x@));
            vstd::seq_lib::to_multiset_insert(old_r, p as int, x@);
            vstd::seq_lib::to_multiset_build(src.subrange(0, i as int), x@);
        }
        i = i + 1;
    }
    proof {
        assert(src.subrange(0, src.len() as int) =~= src);
        src.lemma_sort_by_ensures(leq_by::<T>());
        vstd::seq_lib::lemma_sorted_unique(views_of(r@), src.sort_by(leq_by::<T>()), leq_by::<T>());
    }
    r
}

/// True when `s` lists the views of `keys`, each once, in strictly
/// increasing order.
pub open spec fn is_increasing_listing<T: StrictOrder>(s: Seq<T::V>, keys: Set<T::V>) -> bool {
    &&& forall|i: int, j: int| 0 <= i < j < s.len() ==> T::spec_before(#[trigger] s[i], #[trigger] s[j])
    &&& forall|k: T::V| keys.contains(k) <==> #[trigger] s.contains(k)
}

/// A set of views has a single strictly increasing listing.
pub proof fn law_increasing_listing_unique<T: StrictOrder>(
    s1: Seq<T::V>,
    s2: Seq<T::V>,
    keys: Set<T::V>,
)
    requires
        is_increasing_listing::<T>(s1, keys),
        is_increasing_listing::<T>(s2, keys),
    ensures
        s1 == s2,
    decreases s1.len(),
{
    if s1.len() == 0 {
        if s2.len() > 0 {
            assert(s2.contains(s2[0]));
            assert(keys.contains(s2[0]));
            assert(s1.contains(s2[0]));
        }
        assert(s1 =~= s2);
    } else {
        assert(s1.contains(s1[0]));
        assert(keys.contains(s1[0]));
        assert(s2.contains(s1[0]));
        assert(s2.contains(s2[0]));
        assert(keys.contains(s2[0]));
        assert(s1.contains(s2[0]));
        let i = choose|i: int| 0 <= i < s1.len() && s1[i] == s2[0];
        let j = choose|j: int| 0 <= j < s2.len() && s2[j] == s1[0];
        if i > 0 && j > 0 {
            assert(T::spec_before(s1[0], s1[i]));
            assert(T::spec_before(s2[0], s2[j]));
            T::lemma_before_transitive(s1[0], s2[0], s1[0]);
            T::lemma_before_irreflexive(s1[0]);
        }
        let first = s1[0];
        let rest = keys.remove(first);
        let t1 = s1.drop_first();
        let t2 = s2.drop_first();
        assert forall|a: int, b: int| 0 <= a < b < t1.len() implies T::spec_before(
            #[trigger] t1[a],
            #[trigger] t1[b],
        ) by {
            assert(t1[a] == s1[a + 1] && t1[b] == s1[b + 1]);
        }
        assert forall|a: int, b: int| 0 <= a < b < t2.len() implies T::spec_before(
            #[trigger] t2[a],
            #[trigger] t2[b],
        ) by {
            assert(t2[a] == s2[a + 1] && t2[b] == s2[b + 1]);
        }
        assert forall|k: T::V| rest.contains(k) <==> #[trigger] t1.contains(k) by {
            if t1.contains(k) {
                let p = choose|p: int| 0 <= p < t1.len() && t1[p] == k;
                assert(s1[p + 1] == k);
                assert(s1.contains(k));
                assert(T::spec_before(s1[0], s1[p + 1]));
                T::lemma_before_irreflexive(k);
            }
            if rest.contains(k) {
                assert(s1.contains(k));
                let p = choose|p: int| 0 <= p < s1.len() && s1[p] == k;
                assert(p != 0);
                assert(t1[p - 1] == k);
            }
        }
        assert forall|k: T::V| rest.contains(k) <==> #[trigger] t2.contains(k) by {
            if t2.contains(k) {
                let p = choose|p: int| 0 <= p < t2.len() && t2[p] == k;
                assert(s2[p + 1] == k);
                assert(s2.contains(k));
                assert(T::spec_before(s2[0], s2[p + 1]));
                T::lemma_before_irreflexive(k);
            }
            if rest.contains(k) {
                assert(s2.contains(k));
                let p = choose|p: int| 0 <= p < s2.len() && s2[p] == k;
                assert(p != 0);
                assert(t2[p - 1] == k);
            }
        }
        law_increasing_listing_unique::<T>(t1, t2, rest);
        assert(s1 =~= seq![first] + t1);
        assert(s2 =~= seq![first] + t2);
    }
}

/// The keys of a map, in increasing order.
pub fn sorted_map_keys<T: StrictOrder, V>(m: &AssocMap<T, V>) -> (r: Vec<T>)
    ensures
        is_increasing_listing::<T>(views_of(r@), m@.dom()),
{
    broadcast use vstd::seq_lib::group_to_multiset_ensures;

    let n = m.len();
    let mut keys: Vec<T> = Vec::new();
    let mut i: usize = 0;
    while i < n
        invariant
            i <= n,
            n == m.pairs().len(),
            views_of(keys@) == m.pairs().subrange(0, i as int).map_values(|p: (T, V)| p.0@),
        decreases n - i,
    {
        let e = m.entry(i);
        let ghost before = views_of(keys@);
        keys.push(e.0.copy_key());
        proof {
            assert(views_of(keys@) =~= before.push(e.0@));
            assert(m.pairs().subrange(0, i + 1).map_values(|p: (T, V)| p.0@) =~= m.pairs().subrange(
                0,
                i as int,
            ).map_values(|p: (T, V)| p.0@).push(m.pairs()[i as int].0@));
        }
        i = i + 1;
    }
    let ghost listed = views_of(keys@);
    proof {
        assert(m.pairs().subrange(0, n as int) =~= m.pairs());
    }
    let r = sort_keys(&keys);
    proof {
        let s = views_of(r@);
        lemma_leq_by_total_ordering::<T>();
        listed.lemma_sort_by_ensures(leq_by::<T>());
        assert forall|k: T::V| #[trigger] s.contains(k) <==> listed.contains(k) by {
            assert(s.to_multiset().count(k) == listed.to_multiset().count(k));
        }
        assert forall|k: T::V| m@.dom().contains(k) <==> #[trigger] s.contains(k) by {
            if m@.dom().contains(k) {
                let j = choose|j: int| 0 <= j < m.pairs().len() && m.pairs()[j].0@ == k;
                assert(listed[j] == k);
                assert(listed.contains(k));
            }
            if s.contains(k) {
                assert(listed.contains(k));
                let j = choose|j: int| 0 <= j < listed.len() && listed[j] == k;
                assert(m@.contains_key(m.pairs()[j].0@));
            }
        }
        assert forall|a: int, b: int| 0 <= a < b < s.len() implies T::spec_before(
            #[trigger] s[a],
            #[trigger] s[b],
        ) by {
            assert(leq_by::<T>()(s[a], s[b]));
            if s[a] == s[b] {
                lemma_distinct_count(listed, m, s[a]);
                assert(s.to_multiset().count(s[a]) == listed.to_multiset().count(s[a]));
                lemma_two_positions_count(s, a, b);
            }
        }
    }
    r
}

/// In the keys of a map, every key occurs at most once.
proof fn lemma_distinct_count<T: StrictOrder, V>(listed: Seq<T::V>, m: &AssocMap<T, V>, k: T::V)
    requires
        listed == m.pairs().map_values(|p: (T, V)| p.0@),
        forall|i: int, j: int| 0 <= i < j < m.pairs().len() ==> m.pairs()[i].0@ != m.pairs()[j].0@,
    ensures
        listed.to_multiset().count(k) <= 1,
{
    assert(listed.no_duplicates()) by {
        assert forall|i: int, j: int| 0 <= i < listed.len() && 0 <= j < listed.len() && i != j implies listed[i]
            != listed[j] by {
            if i < j {
                assert(m.pairs()[i].0@ != m.pairs()[j].0@);
            } else {
                assert(m.pairs()[j].0@ != m.pairs()[i].0@);
            }
        }
    }
    listed.lemma_multiset_has_no_duplicates();
}

/// A value at two positions of a sequence occurs at least twice.
proof fn lemma_two_positions_count<A>(s: Seq<A>, a: int, b: int)
    requires
        0 <= a < b < s.len(),
        s[a] == s[b],
    ensures
        s.to_multiset().count(s[a]) >= 2,
{
    broadcast use vstd::seq_lib::group_to_multiset_ensures;

    let x = s[a];
    let t = s.remove(b);
    assert(t[a] == x);
    assert(t.contains(x));
    assert(t.to_multiset().count(x) >= 1);
    assert(s.remove(b).to_multiset() == s.to_multiset().remove(s[b]));
}

/// The distinct keys of `v`, in increasing order.
pub fn sorted_distinct<T: StrictOrder>(v: &Vec<T>) -> (r: Vec<T>)
    ensures
        is_increasing_listing::<T>(views_of(r@), views_of(v@).to_set()),
{
    broadcast use vstd::seq_lib::group_to_multiset_ensures;

    let sorted = sort_keys(v);
    let ghost src = views_of(v@);
    let ghost s = views_of(sorted@);
    proof {
        lemma_leq_by_total_ordering::<T>();
        src.lemma_sort_by_ensures(leq_by::<T>());
        assert forall|k: T::V| #[trigger] s.contains(k) <==> src.contains(k) by {
            assert(s.to_multiset().count(k) == src.to_multiset().count(k));
        }
    }
    let mut r: Vec<T> = Vec::new();
    let mut i: usize = 0;
    while i < sorted.len()
        invariant
            i <= sorted@.len(),
            s == views_of(sorted@),
            sorted_by(s, leq_by::<T>()),
            total_ordering(leq_by::<T>()),
            forall|a: int, b: int|
                0 <= a < b < views_of(r@).len() ==> T::spec_before(
                    #[trigger] views_of(r@)[a],
                    #[trigger] views_of(r@)[b],
                ),
            forall|k: T::V| #[trigger] views_of(r@).contains(k) <==> s.subrange(0, i as int).contains(k),
            i > 0 ==> r@.len() > 0 && views_of(r@).last() == s[i - 1],
            i == 0 ==> r@.len() == 0,
        decreases sorted@.len() - i,
    {
        let x = &sorted[i];
        let fresh = if r.len() == 0 {
            true
        } else {
            !r[r.len() - 1].same_key(x)
        };
        let ghost before = views_of(r@);
        let ghost pre = s.subrange(0, i as int);
        let ghost post = s.subrange(0, i + 1);
        if fresh {
            r.push(x.copy_key());
            proof {
                let nr = views_of(r@);
                assert(nr =~= before.push(x@));
                assert(s[i as int] == x@);
                if i > 0 {
                    assert(leq_by::<T>()(s[i - 1], s[i as int]));
                    assert(T::spec_before(before.last(), x@));
                    assert forall|a: int, b: int| 0 <= a < b < nr.len() implies T::spec_before(
                        #[trigger] nr[a],
                        #[trigger] nr[b],
                    ) by {
                        if b == before.len() && a < before.len() - 1 {
                            T::lemma_before_transitive(before[a], before.last(), x@);
                        }
                    }
                }
                assert forall|k: T::V| #[trigger] nr.contains(k) <==> post.contains(k) by {
                    if post.contains(k) {
                        let j = choose|j: int| 0 <= j < i + 1 && post[j] == k;
                        if j < i {
                            assert(pre[j] == k);
                            assert(before.contains(k));
                            let q = choose|q: int| 0 <= q < before.len() && before[q] == k;
                            assert(nr[q] == k);
                        } else {
                            assert(nr[before.len() as int] == k);
                        }
                    }
                    if nr.contains(k) {
                        let q = choose|q: int| 0 <= q < nr.len() && nr[q] == k;
                        if q < before.len() {
                            assert(before.contains(k));
                            let j = choose|j: int| 0 <= j < i && pre[j] == k;
                            assert(post[j] == k);
                        } else {
                            assert(post[i as int] == k);
                        }
                    }
                }
            }
        } else {
            proof {
                assert(s[i as int] == x@);
                assert forall|k: T::V| #[trigger] before.contains(k) <==> post.contains(k) by {
                    if post.contains(k) {
                        let j = choose|j: int| 0 <= j < i + 1 && post[j] == k;
                        if j < i {
                            assert(pre[j] == k);
                        } else {
                            assert(before[before.len() - 1] == k);
                        }
                    }
                    if before.contains(k) {
                        let j = choose|j: int| 0 <= j < i && pre[j] == k;
                        assert(post[j] == k);
                    }
                }
            }
        }
        i = i + 1;
    }
    proof {
        assert(s.subrange(0, s.len() as int) =~= s);
        assert forall|k: T::V| src.to_set().contains(k) <==> #[trigger] views_of(r@).contains(k) by {
            assert(src.to_set().contains(k) == src.contains(k));
        }
    }
    r
}

/// The least element of a non-empty sequence of integers.
pub open spec fn least(s: Seq<int>) -> int
    decreases s.len(),
{
    if s.len() <= 1 {
        s[0]
    } else {
        let m = least(s.drop_last());
        if s.last() < m {
            s.last()
        } else {
            m
        }
    }
}

/// The greatest element of a non-empty sequence of integers.
pub open spec fn greatest(s: Seq<int>) -> int
    decreases s.len(),
{
    if s.len() <= 1 {
        s[0]
    } else {
        let m = greatest(s.drop_last());
        if s.last() > m {
            s.last()
        } else {
            m
        }
    }
}

/// An element of `s` that no element of `s` is below is its least element;
/// one that no element is above is its greatest.
pub proof fn lemma_least_greatest(s: Seq<int>, x: int)
    requires
        s.len() > 0,
        s.contains(x),
    ensures
        (forall|i: int| 0 <= i < s.len() ==> x <= #[trigger] s[i]) ==> least(s) == x,
        (forall|i: int| 0 <= i < s.len() ==> x >= #[trigger] s[i]) ==> greatest(s) == x,
    decreases s.len(),
{
    lemma_least_greatest_bounds(s);
}

/// The least and greatest elements of `s` are elements of `s` and bound it.
proof fn lemma_least_greatest_bounds(s: Seq<int>)
    requires
        s.len() > 0,
    ensures
        s.contains(least(s)),
        s.contains(greatest(s)),
        forall|i: int| 0 <= i < s.len() ==> least(s) <= #[trigger] s[i] <= greatest(s),
    decreases s.len(),
{
    if s.len() == 1 {
        assert(s[0] == least(s));
    } else {
        let r = s.drop_last();
        lemma_least_greatest_bounds(r);
        assert(s[s.len() - 1] == s.last());
        let a = choose|i: int| 0 <= i < r.len() && r[i] == least(r);
        assert(s[a] == least(r));
        let b = choose|i: int| 0 <= i < r.len() && r[i] == greatest(r);
        assert(s[b] == greatest(r));
        assert forall|i: int| 0 <= i < s.len() implies least(s) <= #[trigger] s[i] <= greatest(s) by {
            if i < r.len() {
                assert(r[i] == s[i]);
            }
        }
    }
}

} // verus!
