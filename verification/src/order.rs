//! The order in which the reports list their input files: by product type,
//! then by how the file is indexed, then by file name, strings being ordered
//! lexicographically by code point.
use crate::keyed::{AssocMap, KeyView};
use crate::model::{Constellation, QcIndexing, QcProductType, QcSourceDescriptor, TimeScale, SV};
use crate::orbit_proj::QcOrbitProjectionsKey;
use crate::sorting::{is_increasing_listing, law_increasing_listing_unique, StrictOrder};
use vstd::relations::{sorted_by, total_ordering};
use vstd::prelude::*;

verus! {

/// Lexicographic order on character strings: a proper prefix comes first,
/// otherwise the first differing character decides, by code point.
pub open spec fn chars_lt(a: Seq<char>, b: Seq<char>) -> bool
    decreases a.len(),
{
    if b.len() == 0 {
        false
    } else if a.len() == 0 {
        true
    } else if a[0] != b[0] {
        (a[0] as int) < (b[0] as int)
    } else {
        chars_lt(a.drop_first(), b.drop_first())
    }
}

/// No string comes before itself.
pub proof fn lemma_chars_lt_irreflexive(a: Seq<char>)
    ensures
        !chars_lt(a, a),
    decreases a.len(),
{
    if a.len() > 0 {
        lemma_chars_lt_irreflexive(a.drop_first());
    }
}

/// The string order is transitive.
pub proof fn lemma_chars_lt_transitive(a: Seq<char>, b: Seq<char>, c: Seq<char>)
    requires
        chars_lt(a, b),
        chars_lt(b, c),
    ensures
        chars_lt(a, c),
    decreases a.len(),
{
    if a.len() > 0 && b.len() > 0 && c.len() > 0 && a[0] == b[0] && b[0] == c[0] {
        lemma_chars_lt_transitive(a.drop_first(), b.drop_first(), c.drop_first());
    }
}

/// Two distinct strings are ordered one way or the other.
pub proof fn lemma_chars_lt_total(a: Seq<char>, b: Seq<char>)
    requires
        a != b,
    ensures
        chars_lt(a, b) || chars_lt(b, a),
    decreases a.len(),
{
    if a.len() == 0 && b.len() == 0 {
        assert(a =~= b);
    } else if a.len() > 0 && b.len() > 0 && a[0] == b[0] {
        if a.drop_first() == b.drop_first() {
            assert(a =~= seq![a[0]] + a.drop_first());
            assert(b =~= seq![b[0]] + b.drop_first());
        } else {
            lemma_chars_lt_total(a.drop_first(), b.drop_first());
        }
    }
}

/// Comparing two strings that share their first `i` characters amounts to
/// comparing what follows.
proof fn lemma_chars_lt_skip(a: Seq<char>, b: Seq<char>, i: int)
    requires
        0 <= i <= a.len(),
        i <= b.len(),
        a.subrange(0, i) == b.subrange(0, i),
    ensures
        chars_lt(a, b) == chars_lt(a.skip(i), b.skip(i)),
    decreases i,
{
    if i > 0 {
        assert(a[0] == a.subrange(0, i)[0]);
        assert(b[0] == b.subrange(0, i)[0]);
        assert(a.drop_first().subrange(0, i - 1) =~= a.subrange(0, i).drop_first());
        assert(b.drop_first().subrange(0, i - 1) =~= b.subrange(0, i).drop_first());
        lemma_chars_lt_skip(a.drop_first(), b.drop_first(), i - 1);
        assert(a.drop_first().skip(i - 1) =~= a.skip(i));
        assert(b.drop_first().skip(i - 1) =~= b.skip(i));
    } else {
        assert(a.skip(0) =~= a);
        assert(b.skip(0) =~= b);
    }
}

/// True when string `a` comes strictly before string `b`.
pub fn string_lt(a: &String, b: &String) -> (r: bool)
    ensures
        r == chars_lt(a@, b@),
{
    let sa = a.as_str();
    let sb = b.as_str();
    let la = sa.unicode_len();
    let lb = sb.unicode_len();
    let mut i: usize = 0;
    while i < la && i < lb
        invariant
            i <= la,
            i <= lb,
            la == a@.len(),
            lb == b@.len(),
            sa@ == a@,
            sb@ == b@,
            a@.subrange(0, i as int) == b@.subrange(0, i as int),
        decreases la - i,
    {
        let ca = sa.get_char(i);
        let cb = sb.get_char(i);
        if ca != cb {
            proof {
                lemma_chars_lt_skip(a@, b@, i as int);
                assert(a@.skip(i as int)[0] == ca);
                assert(b@.skip(i as int)[0] == cb);
            }
            return (ca as u32) < (cb as u32);
        }
        proof {
            assert(a@.subrange(0, i + 1) =~= a@.subrange(0, i as int).push(ca));
            assert(b@.subrange(0, i + 1) =~= b@.subrange(0, i as int).push(cb));
        }
        i = i + 1;
    }
    proof {
        lemma_chars_lt_skip(a@, b@, i as int);
    }
    i < lb
}

/// Rank of a product type, in declaration order.
pub open spec fn product_rank(p: QcProductType) -> int {
    match p {
        QcProductType::Observation => 0,
        QcProductType::MeteoObservation => 1,
        QcProductType::DORIS => 2,
        QcProductType::BroadcastNavigation => 3,
        QcProductType::PreciseClock => 4,
        QcProductType::IONEX => 5,
        QcProductType::ANTEX => 6,
        QcProductType::PreciseOrbit => 7,
    }
}

/// Rank of a product type, in declaration order.
pub fn product_rank_of(p: QcProductType) -> (r: u8)
    ensures
        r == product_rank(p),
{
    match p {
        QcProductType::Observation => 0,
        QcProductType::MeteoObservation => 1,
        QcProductType::DORIS => 2,
        QcProductType::BroadcastNavigation => 3,
        QcProductType::PreciseClock => 4,
        QcProductType::IONEX => 5,
        QcProductType::ANTEX => 6,
        QcProductType::PreciseOrbit => 7,
    }
}

/// What the order reads of a file descriptor: product type, indexing (its
/// kind then its identifier), file name.
pub type DescView = (QcProductType, (u8, Seq<char>), Seq<char>);

/// Order on indexings: by kind, then by identifier.
pub open spec fn indexing_lt(a: (u8, Seq<char>), b: (u8, Seq<char>)) -> bool {
    a.0 < b.0 || (a.0 == b.0 && chars_lt(a.1, b.1))
}

/// Order on file descriptors: product type first, then indexing, then name.
pub open spec fn desc_lt(a: DescView, b: DescView) -> bool {
    ||| product_rank(a.0) < product_rank(b.0)
    ||| (a.0 == b.0 && indexing_lt(a.1, b.1))
    ||| (a.0 == b.0 && a.1 == b.1 && chars_lt(a.2, b.2))
}

/// No descriptor comes before itself.
pub proof fn lemma_desc_lt_irreflexive(a: DescView)
    ensures
        !desc_lt(a, a),
{
    lemma_chars_lt_irreflexive(a.1.1);
    lemma_chars_lt_irreflexive(a.2);
}

/// The descriptor order is transitive.
pub proof fn lemma_desc_lt_transitive(a: DescView, b: DescView, c: DescView)
    requires
        desc_lt(a, b),
        desc_lt(b, c),
    ensures
        desc_lt(a, c),
{
    if a.0 == b.0 && b.0 == c.0 {
        if a.1.0 == b.1.0 && b.1.0 == c.1.0 && chars_lt(a.1.1, b.1.1) && chars_lt(b.1.1, c.1.1) {
            lemma_chars_lt_transitive(a.1.1, b.1.1, c.1.1);
        }
        if a.1 == b.1 && b.1 == c.1 && chars_lt(a.2, b.2) && chars_lt(b.2, c.2) {
            lemma_chars_lt_transitive(a.2, b.2, c.2);
        }
    }
}

/// Two distinct descriptors are ordered one way or the other.
pub proof fn lemma_desc_lt_total(a: DescView, b: DescView)
    requires
        a != b,
    ensures
        desc_lt(a, b) || desc_lt(b, a),
{
    if a.0 == b.0 {
        if a.1 == b.1 {
            lemma_chars_lt_total(a.2, b.2);
        } else if a.1.0 == b.1.0 {
            lemma_chars_lt_total(a.1.1, b.1.1);
        }
    }
}

/// True when descriptor `a` comes strictly before descriptor `b`.
pub fn descriptor_lt(a: &QcSourceDescriptor, b: &QcSourceDescriptor) -> (r: bool)
    ensures
        r == desc_lt(a@, b@),
{
    let ra = product_rank_of(a.product_type);
    let rb = product_rank_of(b.product_type);
    if ra != rb {
        return ra < rb;
    }
    let ta = a.indexing.tag();
    let tb = b.indexing.tag();
    if ta != tb {
        return ta < tb;
    }
    let la = a.indexing.label();
    let lb = b.indexing.label();
    let same_index = a.indexing.same_key(&b.indexing);
    if !same_index {
        proof {
            assert(a@.1.1 == la@ || a@.1.0 == 0);
        }
        if ta == 0 {
            return false;
        }
        return string_lt(&la, &lb);
    }
    proof {
        lemma_product_rank_injective(a.product_type, b.product_type);
        lemma_chars_lt_irreflexive(a@.1.1);
    }
    string_lt(&a.filename, &b.filename)
}

/// Distinct product types have distinct ranks.
proof fn lemma_product_rank_injective(p: QcProductType, q: QcProductType)
    requires
        product_rank(p) == product_rank(q),
    ensures
        p == q,
{
}

/// True when `s` lists the descriptors of `keys`, each once, in increasing
/// order.
pub open spec fn is_sorted_listing(s: Seq<DescView>, keys: Set<DescView>) -> bool {
    is_increasing_listing::<QcSourceDescriptor>(s, keys)
}

/// The descriptors of `keys` in increasing order: the one listing of them
/// that `law_increasing_listing_unique` shows to exist at most once.
pub open spec fn sorted_listing(keys: Set<DescView>) -> Seq<DescView> {
    choose|s: Seq<DescView>| is_sorted_listing(s, keys)
}

/// The views of a list of descriptors.
pub open spec fn desc_views(v: Seq<QcSourceDescriptor>) -> Seq<DescView> {
    v.map_values(|d: QcSourceDescriptor| d@)
}

/// True when the descriptor is that of a precise orbit file exactly when
/// `orbits` is.
pub open spec fn is_selected(k: DescView, orbits: bool) -> bool {
    (k.0 == QcProductType::PreciseOrbit) == orbits
}

/// The descriptors of `keys` that are those of precise orbit files when
/// `orbits` is true, those of all other (RINEX) files when it is false.
pub open spec fn selected(keys: Set<DescView>, orbits: bool) -> Set<DescView> {
    keys.filter(|k: DescView| is_selected(k, orbits))
}

/// The selected descriptors among the first `i` entries of a map.
spec fn selected_prefix<V>(m: AssocMap<QcSourceDescriptor, V>, i: int, orbits: bool) -> Set<
    DescView,
> {
    Set::new(
        |k: DescView|
            is_selected(k, orbits) && exists|j: int| 0 <= j < i && #[trigger] m.pairs()[j].0@ == k,
    )
}

/// The descriptors of a map that are those of precise orbit files (when
/// `orbits` is true) or of RINEX files (when it is false), in increasing
/// order.
pub fn sorted_descriptors<V>(m: &AssocMap<QcSourceDescriptor, V>, orbits: bool) -> (r: Vec<
    QcSourceDescriptor,
>)
    ensures
        desc_views(r@) == sorted_listing(selected(m@.dom(), orbits)),
        is_sorted_listing(desc_views(r@), selected(m@.dom(), orbits)),
{
    let n = m.len();
    let mut v: Vec<QcSourceDescriptor> = Vec::new();
    let mut i: usize = 0;
    proof {
        assert(is_sorted_listing(desc_views(v@), selected_prefix(*m, 0, orbits)));
    }
    while i < n
        invariant
            i <= n,
            n == m.pairs().len(),
            keys_distinct_views(*m),
            is_sorted_listing(desc_views(v@), selected_prefix(*m, i as int, orbits)),
        decreases n - i,
    {
        let e = m.entry(i);
        let is_orbit = matches!(e.0.product_type, QcProductType::PreciseOrbit);
        if is_orbit == orbits {
            let ghost old_views = desc_views(v@);
            let ghost x = e.0@;
            proof {
                if old_views.contains(x) {
                    let q = choose|q: int| 0 <= q < old_views.len() && old_views[q] == x;
                    assert(selected_prefix(*m, i as int, orbits).contains(x));
                    let j = choose|j: int| 0 <= j < i && #[trigger] m.pairs()[j].0@ == x;
                    assert(m.pairs()[j].0@ != m.pairs()[i as int].0@);
                }
            }
            let mut p: usize = 0;
            while p < v.len() && descriptor_lt(&v[p], &e.0)
                invariant
                    p <= v@.len(),
                    old_views == desc_views(v@),
                    x == e.0@,
                    forall|q: int| 0 <= q < p ==> desc_lt(#[trigger] old_views[q], x),
                decreases v@.len() - p,
            {
                p = p + 1;
            }
            proof {
                if p < old_views.len() {
                    assert(!desc_lt(old_views[p as int], x));
                    assert(old_views.contains(old_views[p as int]));
                    lemma_desc_lt_total(old_views[p as int], x);
                    assert forall|q: int| p <= q < old_views.len() implies desc_lt(
                        x,
                        #[trigger] old_views[q],
                    ) by {
                        if q > p {
                            lemma_desc_lt_transitive(x, old_views[p as int], old_views[q]);
                        }
                    }
                }
            }
            let key = e.0.copy_key();
            v.insert(p, key);
            proof {
                let nv = desc_views(v@);
                assert(nv =~= old_views.insert(p as int, x));
                assert forall|a: int, b: int| 0 <= a < b < nv.len() implies desc_lt(
                    #[trigger] nv[a],
                    #[trigger] nv[b],
                ) by {
                    if b < p {
                        assert(nv[a] == old_views[a] && nv[b] == old_views[b]);
                    } else if b == p {
                        assert(nv[a] == old_views[a]);
                    } else if a < p {
                        assert(nv[a] == old_views[a] && nv[b] == old_views[b - 1]);
                        lemma_desc_lt_transitive(old_views[a], x, old_views[b - 1]);
                    } else if a == p {
                        assert(nv[b] == old_views[b - 1]);
                    } else {
                        assert(nv[a] == old_views[a - 1] && nv[b] == old_views[b - 1]);
                    }
                }
                let s_old = selected_prefix(*m, i as int, orbits);
                let s_new = selected_prefix(*m, i + 1, orbits);
                assert forall|k: DescView| s_new.contains(k) <==> #[trigger] nv.contains(k) by {
                    if nv.contains(k) {
                        let q = choose|q: int| 0 <= q < nv.len() && nv[q] == k;
                        if q < p {
                            assert(old_views[q] == k);
                            assert(old_views.contains(k));
                        } else if q == p {
                            assert(m.pairs()[i as int].0@ == k);
                        } else {
                            assert(old_views[q - 1] == k);
                            assert(old_views.contains(k));
                        }
                        if k != x {
                            assert(s_old.contains(k));
                            let j = choose|j: int| 0 <= j < i && #[trigger] m.pairs()[j].0@ == k;
                            assert(m.pairs()[j].0@ == k);
                        }
                    }
                    if s_new.contains(k) {
                        let j = choose|j: int| 0 <= j < i + 1 && #[trigger] m.pairs()[j].0@ == k;
                        if j < i {
                            assert(s_old.contains(k));
                            assert(old_views.contains(k));
                            let q = choose|q: int| 0 <= q < old_views.len() && old_views[q] == k;
                            if q < p {
                                assert(nv[q] == k);
                            } else {
                                assert(nv[q + 1] == k);
                            }
                        } else {
                            assert(nv[p as int] == k);
                        }
                    }
                }
            }
        } else {
            proof {
                let s_old = selected_prefix(*m, i as int, orbits);
                let s_new = selected_prefix(*m, i + 1, orbits);
                assert forall|k: DescView| #[trigger] s_new.contains(k) <==> s_old.contains(k) by {
                    if s_new.contains(k) {
                        let j = choose|j: int| 0 <= j < i + 1 && #[trigger] m.pairs()[j].0@ == k;
                        if j == i {
                            assert(!is_selected(k, orbits));
                        }
                        assert(m.pairs()[j].0@ == k);
                    }
                    if s_old.contains(k) {
                        let j = choose|j: int| 0 <= j < i && #[trigger] m.pairs()[j].0@ == k;
                        assert(m.pairs()[j].0@ == k);
                    }
                }
                assert(s_new =~= s_old);
            }
        }
        i = i + 1;
    }
    proof {
        let full = selected(m@.dom(), orbits);
        let pre = selected_prefix(*m, n as int, orbits);
        assert forall|k: DescView| #[trigger] full.contains(k) <==> pre.contains(k) by {
            if full.contains(k) {
                assert(m@.contains_key(k));
                let j = choose|j: int| 0 <= j < m.pairs().len() && m.pairs()[j].0@ == k;
                assert(m.pairs()[j].0@ == k);
            }
            if pre.contains(k) {
                let j = choose|j: int| 0 <= j < n && #[trigger] m.pairs()[j].0@ == k;
                assert(m@.contains_key(m.pairs()[j].0@));
            }
        }
        assert(full =~= pre);
        let chosen = sorted_listing(full);
        assert(is_sorted_listing(chosen, full));
        law_increasing_listing_unique::<QcSourceDescriptor>(chosen, desc_views(v@), full);
    }
    v
}

/// Facts about the entries of a map that the sort relies on.
spec fn keys_distinct_views<V>(m: AssocMap<QcSourceDescriptor, V>) -> bool {
    &&& forall|i: int, j: int|
        0 <= i < j < m.pairs().len() ==> m.pairs()[i].0@ != m.pairs()[j].0@
    &&& forall|i: int|
        0 <= i < m.pairs().len() ==> #[trigger] m@.contains_key(m.pairs()[i].0@)
    &&& forall|k: DescView|
        #[trigger] m@.contains_key(k) ==> exists|i: int|
            0 <= i < m.pairs().len() && m.pairs()[i].0@ == k
}

/// Rank of a time scale, in declaration order.
pub open spec fn timescale_rank(t: TimeScale) -> int {
    match t {
        TimeScale::TAI => 0,
        TimeScale::TT => 1,
        TimeScale::ET => 2,
        TimeScale::TDB => 3,
        TimeScale::UTC => 4,
        TimeScale::GPST => 5,
        TimeScale::GST => 6,
        TimeScale::BDT => 7,
        TimeScale::QZSST => 8,
        TimeScale::TCG => 9,
        TimeScale::TCB => 10,
        TimeScale::TL => 11,
        TimeScale::TCL => 12,
    }
}

/// Rank of a time scale, in declaration order.
pub fn timescale_rank_of(t: TimeScale) -> (r: u8)
    ensures
        r == timescale_rank(t),
{
    match t {
        TimeScale::TAI => 0,
        TimeScale::TT => 1,
        TimeScale::ET => 2,
        TimeScale::TDB => 3,
        TimeScale::UTC => 4,
        TimeScale::GPST => 5,
        TimeScale::GST => 6,
        TimeScale::BDT => 7,
        TimeScale::QZSST => 8,
        TimeScale::TCG => 9,
        TimeScale::TCB => 10,
        TimeScale::TL => 11,
        TimeScale::TCL => 12,
    }
}

/// Rank of a pair of time scales: ordered by the first, then by the second.
pub open spec fn pair_rank(p: (TimeScale, TimeScale)) -> int {
    timescale_rank(p.0) * 13 + timescale_rank(p.1)
}

/// Order on pairs of time scales: by the first, then by the second.
pub open spec fn pair_leq() -> spec_fn((TimeScale, TimeScale), (TimeScale, TimeScale)) -> bool {
    |a: (TimeScale, TimeScale), b: (TimeScale, TimeScale)| pair_rank(a) <= pair_rank(b)
}

/// The pairs of `s` in increasing order, repeated pairs kept.
pub open spec fn sorted_pairs(s: Seq<(TimeScale, TimeScale)>) -> Seq<(TimeScale, TimeScale)> {
    s.sort_by(pair_leq())
}

/// The order on pairs of time scales is total.
pub proof fn lemma_pair_leq_total_ordering()
    ensures
        total_ordering(pair_leq()),
{
    assert forall|a: (TimeScale, TimeScale), b: (TimeScale, TimeScale)|
        #[trigger] pair_leq()(a, b) && #[trigger] pair_leq()(b, a) implies a == b by {
        assert(pair_rank(a) == pair_rank(b));
        assert(timescale_rank(a.0) == timescale_rank(b.0));
        assert(a.0 == b.0);
        assert(a.1 == b.1);
    }
}

/// The pairs of `v` in increasing order, repeated pairs kept, and equal
/// pairs in their order of appearance.
pub fn sort_pairs(v: &Vec<(TimeScale, TimeScale)>) -> (r: Vec<(TimeScale, TimeScale)>)
    ensures
        r@ == sorted_pairs(v@),
{
    let mut r: Vec<(TimeScale, TimeScale)> = Vec::new();
    let mut i: usize = 0;
    proof {
        assert(r@ =~= v@.subrange(0, 0));
    }
    while i < v.len()
        invariant
            i <= v@.len(),
            sorted_by(r@, pair_leq()),
            r@.to_multiset() == v@.subrange(0, i as int).to_multiset(),
        decreases v@.len() - i,
    {
        let x = v[i];
        let rx: u16 = timescale_rank_of(x.0) as u16 * 13 + timescale_rank_of(x.1) as u16;
        let mut p: usize = 0;
        while p < r.len() && timescale_rank_of(r[p].0) as u16 * 13 + timescale_rank_of(r[p].1) as u16 <= rx
            invariant
                p <= r@.len(),
                rx == pair_rank(x),
                forall|q: int| 0 <= q < p ==> pair_rank(#[trigger] r@[q]) <= pair_rank(x),
            decreases r@.len() - p,
        {
            p = p + 1;
        }
        let ghost old_r = r@;
        proof {
            if p < old_r.len() {
                assert(pair_rank(x) < pair_rank(old_r[p as int]));
                assert forall|q: int| p <= q < old_r.len() implies pair_rank(x) < pair_rank(
                    #[trigger] old_r[q],
                ) by {
                    if q > p {
                        assert(pair_leq()(old_r[p as int], old_r[q]));
                    }
                }
            }
        }
        r.insert(p, x);
        proof {
            assert(r@ == old_r.insert(p as int, x));
            assert forall|a: int, b: int| 0 <= a < b < r@.len() implies #[trigger] pair_leq()(
                r@[a],
                r@[b],
            ) by {
                if b < p {
                    assert(pair_leq()(old_r[a], old_r[b]));
                } else if b == p {
                } else if a < p {
                    assert(r@[b] == old_r[b - 1]);
                } else if a == p {
                    assert(r@[b] == old_r[b - 1]);
                } else {
                    assert(pair_leq()(old_r[a - 1], old_r[b - 1]));
                }
            }
            assert(v@.subrange(0, i + 1) =~= v@.subrange(0, i as int).push(x));
            vstd::seq_lib::to_multiset_insert(old_r, p as int, x);
            vstd::seq_lib::to_multiset_build(v@.subrange(0, i as int), x);
        }
        i = i + 1;
    }
    proof {
        assert(v@.subrange(0, v@.len() as int) =~= v@);
        lemma_pair_leq_total_ordering();
        v@.lemma_sort_by_ensures(pair_leq());
        vstd::seq_lib::lemma_sorted_unique(r@, v@.sort_by(pair_leq()), pair_leq());
    }
    r
}

/// Order on strings, equal strings included.
pub open spec fn chars_leq() -> spec_fn(Seq<char>, Seq<char>) -> bool {
    |a: Seq<char>, b: Seq<char>| chars_lt(a, b) || a == b
}

/// The order on strings is total.
pub proof fn lemma_chars_leq_total_ordering()
    ensures
        total_ordering(chars_leq()),
{
    assert forall|a: Seq<char>, b: Seq<char>|
        #[trigger] chars_leq()(a, b) && #[trigger] chars_leq()(b, a) implies a == b by {
        if a != b {
            lemma_chars_lt_transitive(a, b, a);
            lemma_chars_lt_irreflexive(a);
        }
    }
    assert forall|a: Seq<char>, b: Seq<char>, c: Seq<char>|
        #[trigger] chars_leq()(a, b) && #[trigger] chars_leq()(b, c) implies chars_leq()(a, c) by {
        if a != b && b != c {
            lemma_chars_lt_transitive(a, b, c);
        }
    }
    assert forall|a: Seq<char>, b: Seq<char>|
        #[trigger] chars_leq()(a, b) || #[trigger] chars_leq()(b, a) by {
        if a != b {
            lemma_chars_lt_total(a, b);
        }
    }
}

/// The texts of a list of strings.
pub open spec fn string_texts(v: Seq<String>) -> Seq<Seq<char>> {
    v.map_values(|s: String| s@)
}

/// Copies of the strings of `v` in increasing order, repeated strings kept.
pub fn sort_strings(v: &Vec<String>) -> (r: Vec<String>)
    ensures
        string_texts(r@) == string_texts(v@).sort_by(chars_leq()),
{
    let ghost src = string_texts(v@);
    let mut r: Vec<String> = Vec::new();
    let mut i: usize = 0;
    proof {
        assert(string_texts(r@) =~= src.subrange(0, 0));
    }
    while i < v.len()
        invariant
            i <= v@.len(),
            src == string_texts(v@),
            sorted_by(string_texts(r@), chars_leq()),
            string_texts(r@).to_multiset() == src.subrange(0, i as int).to_multiset(),
        decreases v@.len() - i,
    {
        let x = &v[i];
        let mut p: usize = 0;
        while p < r.len() && !string_lt(x, &r[p])
            invariant
                p <= r@.len(),
                forall|q: int| 0 <= q < p ==> !chars_lt(x@, #[trigger] string_texts(r@)[q]),
            decreases r@.len() - p,
        {
            p = p + 1;
        }
        let ghost old_r = string_texts(r@);
        proof {
            lemma_chars_leq_total_ordering();
            assert forall|q: int| 0 <= q < p implies #[trigger] chars_leq()(old_r[q], x@) by {
                if old_r[q] != x@ {
                    lemma_chars_lt_total(old_r[q], x@);
                }
            }
            if p < old_r.len() {
                assert(chars_lt(x@, old_r[p as int]));
                assert forall|q: int| p <= q < old_r.len() implies #[trigger] chars_leq()(x@, old_r[q]) by {
                    if q > p {
                        assert(chars_leq()(old_r[p as int], old_r[q]));
                        if old_r[p as int] != old_r[q] {
                            lemma_chars_lt_transitive(x@, old_r[p as int], old_r[q]);
                        }
                    }
                }
            }
        }
        r.insert(p, x.clone());
        proof {
            let nr = string_texts(r@);
            assert(nr =~= old_r.insert(p as int, x@));
            assert forall|a: int, b: int| 0 <= a < b < nr.len() implies #[trigger] chars_leq()(
                nr[a],
                nr[b],
            ) by {
                if b < p {
                    assert(chars_leq()(old_r[a], old_r[b]));
                } else if b == p {
                    assert(chars_leq()(old_r[a], x@));
                } else if a < p {
                    assert(nr[b] == old_r[b - 1]);
                    assert(chars_leq()(old_r[a], x@));
                    assert(chars_leq()(x@, old_r[b - 1]));
                } else if a == p {
                    assert(nr[b] == old_r[b - 1]);
                } else {
                    assert(chars_leq()(old_r[a - 1], old_r[b - 1]));
                }
            }
            assert(src.subrange(0, i + 1) =~= src.subrange(0, i as int).push(x@));
            vstd::seq_lib::to_multiset_insert(old_r, p as int, x@);
            vstd::seq_lib::to_multiset_build(src.subrange(0, i as int), x@);
        }
        i = i + 1;
    }
    proof {
        assert(src.subrange(0, src.len() as int) =~= src);
        lemma_chars_leq_total_ordering();
        src.lemma_sort_by_ensures(chars_leq());
        vstd::seq_lib::lemma_sorted_unique(string_texts(r@), src.sort_by(chars_leq()), chars_leq());
    }
    r
}

/// Lexicographic order on lists of strings: a proper prefix comes first,
/// otherwise the first differing string decides.
pub open spec fn texts_lt(a: Seq<Seq<char>>, b: Seq<Seq<char>>) -> bool
    decreases a.len(),
{
    if b.len() == 0 {
        false
    } else if a.len() == 0 {
        true
    } else if a[0] != b[0] {
        chars_lt(a[0], b[0])
    } else {
        texts_lt(a.drop_first(), b.drop_first())
    }
}

/// No list of strings comes before itself.
pub proof fn lemma_texts_lt_irreflexive(a: Seq<Seq<char>>)
    ensures
        !texts_lt(a, a),
    decreases a.len(),
{
    if a.len() > 0 {
        lemma_texts_lt_irreflexive(a.drop_first());
    }
}

/// The order on lists of strings is transitive.
pub proof fn lemma_texts_lt_transitive(a: Seq<Seq<char>>, b: Seq<Seq<char>>, c: Seq<Seq<char>>)
    requires
        texts_lt(a, b),
        texts_lt(b, c),
    ensures
        texts_lt(a, c),
    decreases a.len(),
{
    if a.len() > 0 && b.len() > 0 && c.len() > 0 {
        if a[0] == b[0] && b[0] == c[0] {
            lemma_texts_lt_transitive(a.drop_first(), b.drop_first(), c.drop_first());
        } else if a[0] != b[0] && b[0] != c[0] {
            lemma_chars_lt_transitive(a[0], b[0], c[0]);
            if a[0] == c[0] {
                lemma_chars_lt_irreflexive(a[0]);
            }
        }
    }
}

/// Two distinct lists of strings are ordered one way or the other.
pub proof fn lemma_texts_lt_total(a: Seq<Seq<char>>, b: Seq<Seq<char>>)
    requires
        a != b,
    ensures
        texts_lt(a, b) || texts_lt(b, a),
    decreases a.len(),
{
    if a.len() == 0 && b.len() == 0 {
        assert(a =~= b);
    } else if a.len() > 0 && b.len() > 0 {
        if a[0] == b[0] {
            if a.drop_first() == b.drop_first() {
                assert(a =~= seq![a[0]] + a.drop_first());
                assert(b =~= seq![b[0]] + b.drop_first());
            } else {
                lemma_texts_lt_total(a.drop_first(), b.drop_first());
            }
        } else {
            lemma_chars_lt_total(a[0], b[0]);
        }
    }
}

/// A named list of paragraphs.
pub type NamedTexts = (Seq<char>, Seq<Seq<char>>);

/// Order on named lists of paragraphs: by name, then by paragraphs.
pub open spec fn named_lt(a: NamedTexts, b: NamedTexts) -> bool {
    chars_lt(a.0, b.0) || (a.0 == b.0 && texts_lt(a.1, b.1))
}

/// Order on named lists of paragraphs, equal ones included.
pub open spec fn named_leq() -> spec_fn(NamedTexts, NamedTexts) -> bool {
    |a: NamedTexts, b: NamedTexts| named_lt(a, b) || a == b
}

/// The order on named lists of paragraphs is total.
pub proof fn lemma_named_leq_total_ordering()
    ensures
        total_ordering(named_leq()),
{
    assert forall|a: NamedTexts, b: NamedTexts|
        #[trigger] named_leq()(a, b) && #[trigger] named_leq()(b, a) implies a == b by {
        if a != b {
            lemma_named_lt_transitive(a, b, a);
            lemma_chars_lt_irreflexive(a.0);
            lemma_texts_lt_irreflexive(a.1);
        }
    }
    assert forall|a: NamedTexts, b: NamedTexts, c: NamedTexts|
        #[trigger] named_leq()(a, b) && #[trigger] named_leq()(b, c) implies named_leq()(a, c) by {
        if a != b && b != c {
            lemma_named_lt_transitive(a, b, c);
        }
    }
    assert forall|a: NamedTexts, b: NamedTexts|
        #[trigger] named_leq()(a, b) || #[trigger] named_leq()(b, a) by {
        if a != b {
            if a.0 != b.0 {
                lemma_chars_lt_total(a.0, b.0);
            } else {
                lemma_texts_lt_total(a.1, b.1);
            }
        }
    }
}

/// The order on named lists of paragraphs is transitive.
proof fn lemma_named_lt_transitive(a: NamedTexts, b: NamedTexts, c: NamedTexts)
    requires
        named_lt(a, b),
        named_lt(b, c),
    ensures
        named_lt(a, c),
{
    if chars_lt(a.0, b.0) && chars_lt(b.0, c.0) {
        lemma_chars_lt_transitive(a.0, b.0, c.0);
    }
    if a.0 == b.0 && b.0 == c.0 && texts_lt(a.1, b.1) && texts_lt(b.1, c.1) {
        lemma_texts_lt_transitive(a.1, b.1, c.1);
    }
}

/// True when the named list `a` comes strictly before `b`.
pub fn texts_before(a_name: &String, a: &Vec<String>, b_name: &String, b: &Vec<String>) -> (r: bool)
    ensures
        r == named_lt((a_name@, string_texts(a@)), (b_name@, string_texts(b@))),
{
    if string_lt(a_name, b_name) {
        return true;
    }
    if a_name.as_str().unicode_len() != b_name.as_str().unicode_len() || string_lt(b_name, a_name) {
        proof {
            if a_name@ == b_name@ {
                lemma_chars_lt_irreflexive(a_name@);
            }
        }
        return false;
    }
    proof {
        if a_name@ != b_name@ {
            lemma_chars_lt_total(a_name@, b_name@);
        }
    }
    let ghost ta = string_texts(a@);
    let ghost tb = string_texts(b@);
    let mut i: usize = 0;
    while i < a.len() && i < b.len()
        invariant
            i <= a@.len(),
            i <= b@.len(),
            ta == string_texts(a@),
            tb == string_texts(b@),
            a_name@ == b_name@,
            ta.subrange(0, i as int) == tb.subrange(0, i as int),
        decreases a@.len() - i,
    {
        if string_lt(&a[i], &b[i]) {
            proof {
                lemma_texts_lt_skip(ta, tb, i as int);
                lemma_chars_lt_irreflexive(ta[i as int]);
                assert(ta.skip(i as int)[0] == ta[i as int]);
                assert(tb.skip(i as int)[0] == tb[i as int]);
                lemma_texts_lt_irreflexive(ta);
            }
            return true;
        }
        if string_lt(&b[i], &a[i]) {
            proof {
                lemma_texts_lt_skip(ta, tb, i as int);
                lemma_chars_lt_irreflexive(ta[i as int]);
                assert(ta.skip(i as int)[0] == ta[i as int]);
                assert(tb.skip(i as int)[0] == tb[i as int]);
                if chars_lt(ta[i as int], tb[i as int]) {
                    lemma_chars_lt_transitive(ta[i as int], tb[i as int], ta[i as int]);
                }
                lemma_chars_lt_irreflexive(a_name@);
            }
            return false;
        }
        proof {
            if ta[i as int] != tb[i as int] {
                lemma_chars_lt_total(ta[i as int], tb[i as int]);
            }
            assert(ta.subrange(0, i + 1) =~= ta.subrange(0, i as int).push(ta[i as int]));
            assert(tb.subrange(0, i + 1) =~= tb.subrange(0, i as int).push(tb[i as int]));
        }
        i = i + 1;
    }
    proof {
        lemma_texts_lt_skip(ta, tb, i as int);
    }
    i < b.len()
}

/// Comparing two lists that share their first `i` strings amounts to
/// comparing what follows.
proof fn lemma_texts_lt_skip(a: Seq<Seq<char>>, b: Seq<Seq<char>>, i: int)
    requires
        0 <= i <= a.len(),
        i <= b.len(),
        a.subrange(0, i) == b.subrange(0, i),
    ensures
        texts_lt(a, b) == texts_lt(a.skip(i), b.skip(i)),
    decreases i,
{
    if i > 0 {
        assert(a[0] == a.subrange(0, i)[0]);
        assert(b[0] == b.subrange(0, i)[0]);
        assert(a.drop_first().subrange(0, i - 1) =~= a.subrange(0, i).drop_first());
        assert(b.drop_first().subrange(0, i - 1) =~= b.subrange(0, i).drop_first());
        lemma_texts_lt_skip(a.drop_first(), b.drop_first(), i - 1);
        assert(a.drop_first().skip(i - 1) =~= a.skip(i));
        assert(b.drop_first().skip(i - 1) =~= b.skip(i));
    } else {
        assert(a.skip(0) =~= a);
        assert(b.skip(0) =~= b);
    }
}

impl StrictOrder for QcSourceDescriptor {
    open spec fn spec_before(a: DescView, b: DescView) -> bool {
        desc_lt(a, b)
    }

    proof fn lemma_before_irreflexive(a: DescView) {
        lemma_desc_lt_irreflexive(a);
    }

    proof fn lemma_before_transitive(a: DescView, b: DescView, c: DescView) {
        lemma_desc_lt_transitive(a, b, c);
    }

    proof fn lemma_before_total(a: DescView, b: DescView) {
        lemma_desc_lt_total(a, b);
    }

    fn before(&self, other: &Self) -> (r: bool) {
        descriptor_lt(self, other)
    }
}

/// Rank of a constellation, in declaration order.
pub open spec fn constellation_rank(c: Constellation) -> int {
    match c {
        Constellation::GPS => 0,
        Constellation::Glonass => 1,
        Constellation::BeiDou => 2,
        Constellation::QZSS => 3,
        Constellation::Galileo => 4,
        Constellation::IRNSS => 5,
        Constellation::WAAS => 6,
        Constellation::EGNOS => 7,
        Constellation::MSAS => 8,
        Constellation::GAGAN => 9,
        Constellation::BDSBAS => 10,
        Constellation::KASS => 11,
        Constellation::SDCM => 12,
        Constellation::ASBAS => 13,
        Constellation::SPAN => 14,
        Constellation::SBAS => 15,
        Constellation::AusNZ => 16,
        Constellation::GBAS => 17,
        Constellation::NSAS => 18,
        Constellation::ASAL => 19,
        Constellation::Mixed => 20,
    }
}

/// Rank of a constellation, in declaration order.
pub fn constellation_rank_of(c: Constellation) -> (r: u8)
    ensures
        r == constellation_rank(c),
{
    match c {
        Constellation::GPS => 0,
        Constellation::Glonass => 1,
        Constellation::BeiDou => 2,
        Constellation::QZSS => 3,
        Constellation::Galileo => 4,
        Constellation::IRNSS => 5,
        Constellation::WAAS => 6,
        Constellation::EGNOS => 7,
        Constellation::MSAS => 8,
        Constellation::GAGAN => 9,
        Constellation::BDSBAS => 10,
        Constellation::KASS => 11,
        Constellation::SDCM => 12,
        Constellation::ASBAS => 13,
        Constellation::SPAN => 14,
        Constellation::SBAS => 15,
        Constellation::AusNZ => 16,
        Constellation::GBAS => 17,
        Constellation::NSAS => 18,
        Constellation::ASAL => 19,
        Constellation::Mixed => 20,
    }
}

/// Distinct constellations have distinct ranks.
proof fn lemma_constellation_rank_injective(a: Constellation, b: Constellation)
    requires
        constellation_rank(a) == constellation_rank(b),
    ensures
        a == b,
{
}

/// True when indexing `a` comes strictly before indexing `b`.
pub fn indexing_before(a: &QcIndexing, b: &QcIndexing) -> (r: bool)
    ensures
        r == indexing_lt(a@, b@),
{
    let ta = a.tag();
    let tb = b.tag();
    if ta != tb {
        return ta < tb;
    }
    if ta == 0 {
        proof {
            lemma_chars_lt_irreflexive(a@.1);
        }
        return false;
    }
    let la = a.label();
    let lb = b.label();
    string_lt(&la, &lb)
}

impl StrictOrder for (QcIndexing, Constellation) {
    open spec fn spec_before(a: ((u8, Seq<char>), Constellation), b: ((u8, Seq<char>), Constellation)) -> bool {
        indexing_lt(a.0, b.0) || (a.0 == b.0 && constellation_rank(a.1) < constellation_rank(b.1))
    }

    proof fn lemma_before_irreflexive(a: ((u8, Seq<char>), Constellation)) {
        lemma_chars_lt_irreflexive(a.0.1);
    }

    proof fn lemma_before_transitive(
        a: ((u8, Seq<char>), Constellation),
        b: ((u8, Seq<char>), Constellation),
        c: ((u8, Seq<char>), Constellation),
    ) {
        if a.0.0 == b.0.0 && b.0.0 == c.0.0 && chars_lt(a.0.1, b.0.1) && chars_lt(b.0.1, c.0.1) {
            lemma_chars_lt_transitive(a.0.1, b.0.1, c.0.1);
        }
    }

    proof fn lemma_before_total(a: ((u8, Seq<char>), Constellation), b: ((u8, Seq<char>), Constellation)) {
        if a.0 == b.0 {
            if constellation_rank(a.1) == constellation_rank(b.1) {
                lemma_constellation_rank_injective(a.1, b.1);
            }
        } else if a.0.0 == b.0.0 {
            lemma_chars_lt_total(a.0.1, b.0.1);
        }
    }

    fn before(&self, other: &Self) -> (r: bool) {
        if indexing_before(&self.0, &other.0) {
            return true;
        }
        if !self.0.same_key(&other.0) {
            return false;
        }
        constellation_rank_of(self.1) < constellation_rank_of(other.1)
    }
}

impl StrictOrder for (String, String) {
    open spec fn spec_before(a: (Seq<char>, Seq<char>), b: (Seq<char>, Seq<char>)) -> bool {
        chars_lt(a.0, b.0) || (a.0 == b.0 && chars_lt(a.1, b.1))
    }

    proof fn lemma_before_irreflexive(a: (Seq<char>, Seq<char>)) {
        lemma_chars_lt_irreflexive(a.0);
        lemma_chars_lt_irreflexive(a.1);
    }

    proof fn lemma_before_transitive(
        a: (Seq<char>, Seq<char>),
        b: (Seq<char>, Seq<char>),
        c: (Seq<char>, Seq<char>),
    ) {
        if chars_lt(a.0, b.0) && chars_lt(b.0, c.0) {
            lemma_chars_lt_transitive(a.0, b.0, c.0);
        }
        if a.0 == b.0 && b.0 == c.0 && chars_lt(a.1, b.1) && chars_lt(b.1, c.1) {
            lemma_chars_lt_transitive(a.1, b.1, c.1);
        }
    }

    proof fn lemma_before_total(a: (Seq<char>, Seq<char>), b: (Seq<char>, Seq<char>)) {
        if a.0 != b.0 {
            lemma_chars_lt_total(a.0, b.0);
        } else {
            lemma_chars_lt_total(a.1, b.1);
        }
    }

    fn before(&self, other: &Self) -> (r: bool) {
        if string_lt(&self.0, &other.0) {
            return true;
        }
        if string_lt(&other.0, &self.0) {
            proof {
                if self.0@ == other.0@ {
                    lemma_chars_lt_irreflexive(self.0@);
                }
            }
            return false;
        }
        proof {
            if self.0@ != other.0@ {
                lemma_chars_lt_total(self.0@, other.0@);
            }
        }
        string_lt(&self.1, &other.1)
    }
}

impl StrictOrder for QcIndexing {
    open spec fn spec_before(a: (u8, Seq<char>), b: (u8, Seq<char>)) -> bool {
        indexing_lt(a, b)
    }

    proof fn lemma_before_irreflexive(a: (u8, Seq<char>)) {
        lemma_chars_lt_irreflexive(a.1);
    }

    proof fn lemma_before_transitive(a: (u8, Seq<char>), b: (u8, Seq<char>), c: (u8, Seq<char>)) {
        if a.0 == b.0 && b.0 == c.0 && chars_lt(a.1, b.1) && chars_lt(b.1, c.1) {
            lemma_chars_lt_transitive(a.1, b.1, c.1);
        }
    }

    proof fn lemma_before_total(a: (u8, Seq<char>), b: (u8, Seq<char>)) {
        if a.0 == b.0 {
            lemma_chars_lt_total(a.1, b.1);
        }
    }

    fn before(&self, other: &Self) -> (r: bool) {
        indexing_before(self, other)
    }
}

impl StrictOrder for Constellation {
    open spec fn spec_before(a: Constellation, b: Constellation) -> bool {
        constellation_rank(a) < constellation_rank(b)
    }

    proof fn lemma_before_irreflexive(a: Constellation) {
    }

    proof fn lemma_before_transitive(a: Constellation, b: Constellation, c: Constellation) {
    }

    proof fn lemma_before_total(a: Constellation, b: Constellation) {
        if constellation_rank(a) == constellation_rank(b) {
            lemma_constellation_rank_injective(a, b);
        }
    }

    fn before(&self, other: &Self) -> (r: bool) {
        constellation_rank_of(*self) < constellation_rank_of(*other)
    }
}

impl StrictOrder for QcOrbitProjectionsKey {
    open spec fn spec_before(a: ((u8, Seq<char>), Constellation), b: ((u8, Seq<char>), Constellation)) -> bool {
        <(QcIndexing, Constellation) as StrictOrder>::spec_before(a, b)
    }

    proof fn lemma_before_irreflexive(a: ((u8, Seq<char>), Constellation)) {
        <(QcIndexing, Constellation) as StrictOrder>::lemma_before_irreflexive(a);
    }

    proof fn lemma_before_transitive(
        a: ((u8, Seq<char>), Constellation),
        b: ((u8, Seq<char>), Constellation),
        c: ((u8, Seq<char>), Constellation),
    ) {
        <(QcIndexing, Constellation) as StrictOrder>::lemma_before_transitive(a, b, c);
    }

    proof fn lemma_before_total(a: ((u8, Seq<char>), Constellation), b: ((u8, Seq<char>), Constellation)) {
        <(QcIndexing, Constellation) as StrictOrder>::lemma_before_total(a, b);
    }

    fn before(&self, other: &Self) -> (r: bool) {
        if indexing_before(&self.indexing, &other.indexing) {
            return true;
        }
        if !self.indexing.same_key(&other.indexing) {
            return false;
        }
        constellation_rank_of(self.constellation) < constellation_rank_of(other.constellation)
    }
}

impl StrictOrder for SV {
    open spec fn spec_before(a: SV, b: SV) -> bool {
        a.prn < b.prn || (a.prn == b.prn && constellation_rank(a.constellation) < constellation_rank(
            b.constellation,
        ))
    }

    proof fn lemma_before_irreflexive(a: SV) {
    }

    proof fn lemma_before_transitive(a: SV, b: SV, c: SV) {
    }

    proof fn lemma_before_total(a: SV, b: SV) {
        if a.prn == b.prn && constellation_rank(a.constellation) == constellation_rank(b.constellation) {
            lemma_constellation_rank_injective(a.constellation, b.constellation);
        }
    }

    fn before(&self, other: &Self) -> (r: bool) {
        self.prn < other.prn || (self.prn == other.prn && constellation_rank_of(self.constellation)
            < constellation_rank_of(other.constellation))
    }
}

} // verus!
