//! An ordered association list, used wherever the reports index data by a key.
//!
//! Entries are kept in insertion order; a key occurs at most once. The
//! mathematical model of an [`AssocMap`] is the finite map from the key's view
//! to the stored value.
use vstd::prelude::*;

verus! {

/// Keys of an [`AssocMap`]: two keys are the same key when their views agree.
pub trait KeyView: View + Sized {
    /// Executable key comparison.
    fn same_key(&self, other: &Self) -> (b: bool)
        ensures
            b == (self@ == other@),
    ;

    /// Duplicates a key.
    fn copy_key(&self) -> (r: Self)
        ensures
            r@ == self@,
    ;
}

impl KeyView for String {
    fn same_key(&self, other: &Self) -> (b: bool) {
        *self == *other
    }

    fn copy_key(&self) -> (r: Self) {
        self.clone()
    }
}

/// Insertion ordered map with unique keys.
pub struct AssocMap<K: KeyView, V> {
    entries: Vec<(K, V)>,
    model: Ghost<Map<K::V, V>>,
}

/// True when no two entries of `s` share a key.
pub open spec fn keys_distinct<K: View, V>(s: Seq<(K, V)>) -> bool {
    forall|i: int, j: int| 0 <= i < j < s.len() ==> s[i].0@ != s[j].0@
}

impl<K: KeyView, V> AssocMap<K, V> {
    #[verifier::type_invariant]
    closed spec fn inv(self) -> bool {
        &&& keys_distinct(self.entries@)
        &&& self.model@.dom().finite()
        &&& forall|i: int|
            0 <= i < self.entries@.len() ==> #[trigger] self.model@.contains_key(
                self.entries@[i].0@,
            ) && self.model@[self.entries@[i].0@] == self.entries@[i].1
        &&& forall|k: K::V|
            #[trigger] self.model@.contains_key(k) ==> exists|i: int|
                0 <= i < self.entries@.len() && self.entries@[i].0@ == k
    }

    /// The entries, in insertion order.
    pub closed spec fn pairs(self) -> Seq<(K, V)> {
        self.entries@
    }

    /// Creates an empty map.
    pub fn new() -> (m: Self)
        ensures
            m@ == Map::<K::V, V>::empty(),
            m.pairs().len() == 0,
    {
        AssocMap { entries: Vec::new(), model: Ghost(Map::empty()) }
    }

    /// Number of entries. Its contract also ties the entries to the map model.
    pub fn len(&self) -> (n: usize)
        ensures
            n == self.pairs().len(),
            n == self@.dom().len(),
            keys_distinct(self.pairs()),
            self@.dom().finite(),
            forall|i: int|
                0 <= i < self.pairs().len() ==> #[trigger] self@.contains_key(self.pairs()[i].0@)
                    && self@[self.pairs()[i].0@] == self.pairs()[i].1,
            forall|k: K::V|
                #[trigger] self@.contains_key(k) ==> exists|i: int|
                    0 <= i < self.pairs().len() && self.pairs()[i].0@ == k,
    {
        proof {
            use_type_invariant(self);
            lemma_dom_len(self.entries@, self.model@);
        }
        self.entries.len()
    }

    /// True when the map holds no entry.
    pub fn is_empty(&self) -> (b: bool)
        ensures
            b == (self@.dom().len() == 0),
            b == (self@ == Map::<K::V, V>::empty()),
    {
        let n = self.len();
        proof {
            if self.entries@.len() == 0 {
                assert(self@ =~= Map::<K::V, V>::empty());
            } else {
                assert(self@.contains_key(self.entries@[0].0@));
            }
        }
        n == 0
    }

    /// Key and value of the `i`-th entry.
    pub fn entry(&self, i: usize) -> (e: &(K, V))
        requires
            i < self.pairs().len(),
        ensures
            *e == self.pairs()[i as int],
            self@.contains_key(e.0@),
            self@[e.0@] == e.1,
    {
        proof {
            use_type_invariant(self);
        }
        &self.entries[i]
    }

    /// Position of `key`, if present.
    pub fn position(&self, key: &K) -> (r: Option<usize>)
        ensures
            match r {
                Some(i) => i < self.pairs().len() && self.pairs()[i as int].0@ == key@,
                None => !self@.contains_key(key@),
            },
    {
        proof {
            use_type_invariant(self);
        }
        let mut i: usize = 0;
        while i < self.entries.len()
            invariant
                i <= self.entries@.len(),
                forall|j: int| 0 <= j < i ==> self.entries@[j].0@ != key@,
            decreases self.entries@.len() - i,
        {
            if self.entries[i].0.same_key(key) {
                return Some(i);
            }
            i = i + 1;
        }
        proof {
            if self.model@.contains_key(key@) {
                let j = choose|j: int| 0 <= j < self.entries@.len() && self.entries@[j].0@ == key@;
                assert(self.entries@[j].0@ != key@);
            }
        }
        None
    }

    /// True when `key` is present.
    pub fn contains_key(&self, key: &K) -> (b: bool)
        ensures
            b == self@.contains_key(key@),
    {
        proof {
            use_type_invariant(self);
        }
        match self.position(key) {
            Some(i) => {
                proof {
                    assert(self.model@.contains_key(self.entries@[i as int].0@));
                }
                true
            },
            None => false,
        }
    }

    /// Value stored under `key`, if any.
    pub fn get(&self, key: &K) -> (r: Option<&V>)
        ensures
            match r {
                Some(v) => self@.contains_key(key@) && *v == self@[key@],
                None => !self@.contains_key(key@),
            },
    {
        proof {
            use_type_invariant(self);
        }
        match self.position(key) {
            Some(i) => Some(&self.entries[i].1),
            None => None,
        }
    }

    /// Stores `value` under `key`, replacing any previous value of that key.
    /// A new key goes last; an existing key keeps its place.
    pub fn insert(&mut self, key: K, value: V)
        ensures
            final(self)@ == old(self)@.insert(key@, value),
            old(self)@.contains_key(key@) ==> final(self).pairs().len() == old(self).pairs().len(),
            !old(self)@.contains_key(key@) ==> final(self).pairs() == old(self).pairs().push(
                (key, value),
            ),
    {
        proof {
            use_type_invariant(&*self);
        }
        let ghost old_entries = self.entries@;
        let ghost old_model = self.model@;
        let ghost kv = key@;
        let pos = self.position(&key);
        let mut entries = self.take_entries();
        match pos {
            Some(i) => {
                let ghost v = value;
                entries.set(i, (key, value));
                let ghost new_model = old_model.insert(kv, v);
                proof {
                    assert forall|a: int, b: int| 0 <= a < b < entries@.len() implies entries@[a].0@
                        != entries@[b].0@ by {
                        assert(old_entries[a].0@ != old_entries[b].0@);
                    }
                    assert forall|j: int| 0 <= j < entries@.len() implies #[trigger] new_model.contains_key(
                        entries@[j].0@,
                    ) && new_model[entries@[j].0@] == entries@[j].1 by {
                        if j != i {
                            assert(old_entries[j].0@ != old_entries[i as int].0@);
                            assert(old_model.contains_key(old_entries[j].0@));
                        }
                    }
                    assert forall|k: K::V| #[trigger] new_model.contains_key(k) implies exists|j: int|
                        0 <= j < entries@.len() && entries@[j].0@ == k by {
                        if k != kv {
                            assert(old_model.contains_key(k));
                            let j = choose|j: int| 0 <= j < old_entries.len() && old_entries[j].0@ == k;
                            assert(entries@[j].0@ == k);
                        } else {
                            assert(entries@[i as int].0@ == k);
                        }
                    }
                }
                *self = AssocMap { entries, model: Ghost(new_model) };
            },
            None => {
                let ghost v = value;
                let ghost kk = key;
                entries.push((key, value));
                let ghost new_model = old_model.insert(kv, v);
                proof {
                    let n = old_entries.len() as int;
                    assert(entries@[n] == (kk, v));
                    assert forall|a: int, b: int| 0 <= a < b < entries@.len() implies entries@[a].0@
                        != entries@[b].0@ by {
                        if b == n {
                            assert(old_model.contains_key(old_entries[a].0@));
                        } else {
                            assert(old_entries[a].0@ != old_entries[b].0@);
                        }
                    }
                    assert forall|j: int| 0 <= j < entries@.len() implies #[trigger] new_model.contains_key(
                        entries@[j].0@,
                    ) && new_model[entries@[j].0@] == entries@[j].1 by {
                        if j != n {
                            assert(old_model.contains_key(old_entries[j].0@));
                        }
                    }
                    assert forall|k: K::V| #[trigger] new_model.contains_key(k) implies exists|j: int|
                        0 <= j < entries@.len() && entries@[j].0@ == k by {
                        if k != kv {
                            assert(old_model.contains_key(k));
                            let j = choose|j: int| 0 <= j < old_entries.len() && old_entries[j].0@ == k;
                            assert(entries@[j].0@ == k);
                        } else {
                            assert(entries@[n].0@ == k);
                        }
                    }
                    assert(entries@ == old_entries.push((kk, v)));
                }
                *self = AssocMap { entries, model: Ghost(new_model) };
            },
        }
    }

    /// Removes `key` and returns its value, if it was present.
    pub fn remove(&mut self, key: &K) -> (r: Option<V>)
        ensures
            final(self)@ == old(self)@.remove(key@),
            match r {
                Some(v) => old(self)@.contains_key(key@) && v == old(self)@[key@],
                None => !old(self)@.contains_key(key@),
            },
    {
        proof {
            use_type_invariant(&*self);
        }
        let ghost old_entries = self.entries@;
        let ghost old_model = self.model@;
        let ghost kv = key@;
        match self.position(key) {
            None => {
                proof {
                    assert(old_model.remove(kv) =~= old_model);
                }
                None
            },
            Some(i) => {
                let mut entries = self.take_entries();
                let e = entries.remove(i);
                let ghost new_model = old_model.remove(kv);
                proof {
                    assert(old_model.contains_key(old_entries[i as int].0@));
                    assert forall|a: int, b: int| 0 <= a < b < entries@.len() implies entries@[a].0@
                        != entries@[b].0@ by {
                        let a2 = if a < i { a } else { a + 1 };
                        let b2 = if b < i { b } else { b + 1 };
                        assert(entries@[a] == old_entries[a2]);
                        assert(entries@[b] == old_entries[b2]);
                        assert(old_entries[a2].0@ != old_entries[b2].0@);
                    }
                    assert forall|j: int| 0 <= j < entries@.len() implies #[trigger] new_model.contains_key(
                        entries@[j].0@,
                    ) && new_model[entries@[j].0@] == entries@[j].1 by {
                        let j2 = if j < i { j } else { j + 1 };
                        assert(entries@[j] == old_entries[j2]);
                        assert(old_entries[j2].0@ != old_entries[i as int].0@);
                        assert(old_model.contains_key(old_entries[j2].0@));
                    }
                    assert forall|k: K::V| #[trigger] new_model.contains_key(k) implies exists|j: int|
                        0 <= j < entries@.len() && entries@[j].0@ == k by {
                        assert(old_model.contains_key(k));
                        let j = choose|j: int| 0 <= j < old_entries.len() && old_entries[j].0@ == k;
                        assert(j != i);
                        if j < i {
                            assert(entries@[j] == old_entries[j]);
                        } else {
                            assert(entries@[j - 1] == old_entries[j]);
                        }
                    }
                }
                *self = AssocMap { entries, model: Ghost(new_model) };
                Some(e.1)
            },
        }
    }
}

impl<K: KeyView, V> AssocMap<K, V> {
    /// Moves the entries out, leaving `self` empty.
    fn take_entries(&mut self) -> (entries: Vec<(K, V)>)
        ensures
            entries@ == old(self).entries@,
            final(self)@ == Map::<K::V, V>::empty(),
    {
        let mut tmp = AssocMap { entries: Vec::new(), model: Ghost(Map::empty()) };
        std::mem::swap(&mut tmp, self);
        let AssocMap { entries, model: _ } = tmp;
        entries
    }
}

impl<K: KeyView, V> View for AssocMap<K, V> {
    type V = Map<K::V, V>;

    closed spec fn view(&self) -> Map<K::V, V> {
        self.model@
    }
}

/// What a lookup gives back after a write: the value just written for its
/// key, and for any other key what was there before; after a removal, the
/// key is absent and the other keys are as they were.
pub proof fn law_read_after_write<K, V>(m: Map<K, V>, k: K, v: V, other: K)
    requires
        other != k,
    ensures
        m.insert(k, v).contains_key(k),
        m.insert(k, v)[k] == v,
        m.insert(k, v).contains_key(other) == m.contains_key(other),
        m.contains_key(other) ==> m.insert(k, v)[other] == m[other],
        !m.remove(k).contains_key(k),
        m.remove(k).contains_key(other) == m.contains_key(other),
        m.contains_key(other) ==> m.remove(k)[other] == m[other],
{
}

/// With distinct keys, the model has exactly one key per entry.
proof fn lemma_dom_len<K: View, V>(s: Seq<(K, V)>, m: Map<K::V, V>)
    requires
        keys_distinct(s),
        m.dom().finite(),
        forall|i: int| 0 <= i < s.len() ==> #[trigger] m.contains_key(s[i].0@),
        forall|k: K::V| #[trigger] m.contains_key(k) ==> exists|i: int| 0 <= i < s.len() && s[i].0@ == k,
    ensures
        m.dom().len() == s.len(),
    decreases s.len(),
{
    if s.len() == 0 {
        if m.dom().len() != 0 {
            let k = m.dom().choose();
            assert(m.contains_key(k));
        }
    } else {
        let last = s.last().0@;
        let s2 = s.drop_last();
        let m2 = m.remove(last);
        assert forall|i: int| 0 <= i < s2.len() implies #[trigger] m2.contains_key(s2[i].0@) by {
            assert(s[i].0@ != s[s.len() - 1].0@);
            assert(m.contains_key(s[i].0@));
        }
        assert forall|k: K::V| #[trigger] m2.contains_key(k) implies exists|i: int|
            0 <= i < s2.len() && s2[i].0@ == k by {
            let i = choose|i: int| 0 <= i < s.len() && s[i].0@ == k;
            assert(i != s.len() - 1);
            assert(s2[i] == s[i]);
        }
        assert(m.contains_key(s[s.len() - 1].0@));
        lemma_dom_len(s2, m2);
    }
}

} // verus!
