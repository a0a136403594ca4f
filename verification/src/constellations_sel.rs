//! Tabs that select one constellation among those a report covers.
use crate::model::{Constellation, SV};
use crate::selector::{added, added_all, law_items_after_adds};
use vstd::prelude::*;

verus! {

/// The constellations a report covers, in the order they were met, each once.
pub struct ConstellationsSelector {
    html_id: String,
    constellations: Vec<Constellation>,
}

/// True when `s` holds no constellation twice.
pub open spec fn no_repeat(s: Seq<Constellation>) -> bool {
    forall|i: int, j: int| 0 <= i < j < s.len() ==> s[i] != s[j]
}

impl ConstellationsSelector {
    #[verifier::type_invariant]
    closed spec fn inv(self) -> bool {
        no_repeat(self.constellations@)
    }

    /// HTML identifier of the tabs.
    pub closed spec fn spec_html_id(self) -> Seq<char> {
        self.html_id@
    }

    /// Creates a selector with no constellation.
    pub fn new(html_id: &str) -> (s: Self)
        ensures
            s@ == Seq::<Constellation>::empty(),
            s.spec_html_id() == html_id@,
    {
        ConstellationsSelector { html_id: String::from_str(html_id), constellations: Vec::new() }
    }

    /// True when at least one constellation was added.
    pub fn has_content(&self) -> (b: bool)
        ensures
            b == (self@.len() > 0),
    {
        self.constellations.len() > 0
    }

    /// Adds the constellation of `sv`.
    pub fn add_sv(&mut self, sv: &SV)
        ensures
            final(self)@ == added(old(self)@, sv.constellation),
            final(self).spec_html_id() == old(self).spec_html_id(),
            no_repeat(final(self)@),
    {
        self.add_constellation(&sv.constellation);
    }

    /// Adds `constell` unless it is already present.
    pub fn add_constellation(&mut self, constell: &Constellation)
        ensures
            final(self)@ == added(old(self)@, *constell),
            final(self).spec_html_id() == old(self).spec_html_id(),
            no_repeat(final(self)@),
    {
        proof {
            use_type_invariant(&*self);
        }
        let mut i: usize = 0;
        let mut found = false;
        while i < self.constellations.len()
            invariant
                i <= self.constellations@.len(),
                found == exists|j: int| 0 <= j < i && self.constellations@[j] == *constell,
            decreases self.constellations@.len() - i,
        {
            if self.constellations[i] == *constell {
                found = true;
            }
            i = i + 1;
        }
        if !found {
            let ghost old_list = self.constellations@;
            let mut tmp = ConstellationsSelector { html_id: String::new(), constellations: Vec::new() };
            std::mem::swap(&mut tmp, self);
            let ConstellationsSelector { html_id, mut constellations } = tmp;
            constellations.push(*constell);
            proof {
                assert forall|a: int, b: int| 0 <= a < b < constellations@.len() implies constellations@[a]
                    != constellations@[b] by {
                    if b == old_list.len() {
                        assert(old_list[a] != *constell);
                    }
                }
            }
            *self = ConstellationsSelector { html_id, constellations };
        }
        proof {
            use_type_invariant(&*self);
        }
    }

    /// Number of constellations.
    pub fn len(&self) -> (n: usize)
        ensures
            n == self@.len(),
    {
        self.constellations.len()
    }

    /// HTML identifier of the tabs.
    pub fn html_id(&self) -> (s: &str)
        ensures
            s@ == self.spec_html_id(),
    {
        self.html_id.as_str()
    }

    /// The tabs, in display order: one per constellation, the first one active.
    pub fn tabs(&self) -> (r: Vec<(Constellation, bool)>)
        ensures
            r@.len() == self@.len(),
            forall|i: int| 0 <= i < r@.len() ==> #[trigger] r@[i] == (self@[i], i == 0),
    {
        let mut r: Vec<(Constellation, bool)> = Vec::new();
        let mut i: usize = 0;
        while i < self.constellations.len()
            invariant
                i <= self.constellations@.len(),
                r@.len() == i,
                forall|j: int| 0 <= j < i ==> #[trigger] r@[j] == (self.constellations@[j], j == 0),
            decreases self.constellations@.len() - i,
        {
            r.push((self.constellations[i], i == 0));
            i = i + 1;
        }
        r
    }
}

impl View for ConstellationsSelector {
    type V = Seq<Constellation>;

    closed spec fn view(&self) -> Seq<Constellation> {
        self.constellations@
    }
}

/// Adding a constellation twice has the effect of adding it once, and the
/// covered constellations never repeat.
pub proof fn law_add_constellation_idempotent(s: Seq<Constellation>, c: Constellation)
    requires
        no_repeat(s),
    ensures
        ({
            let once = if s.contains(c) { s } else { s.push(c) };
            let twice = if once.contains(c) { once } else { once.push(c) };
            &&& twice == once
            &&& no_repeat(once)
            &&& once.contains(c)
        }),
{
    let once = if s.contains(c) { s } else { s.push(c) };
    if !s.contains(c) {
        assert(once[s.len() as int] == c);
        assert forall|i: int, j: int| 0 <= i < j < once.len() implies once[i] != once[j] by {
            if j == s.len() {
                assert(s[i] == once[i]);
            }
        }
    }
    assert(once.contains(c));
}

/// Starting from an empty selector, whatever constellations are added (by
/// `add_constellation`, or by `add_sv` with a satellite of that
/// constellation), the selector holds exactly those constellations, each
/// once; so it has content exactly when at least one was added.
pub proof fn law_constellations_after_adds(cs: Seq<Constellation>)
    ensures
        added_all(Seq::empty(), cs).len() > 0 <==> cs.len() > 0,
        no_repeat(added_all(Seq::empty(), cs)),
        forall|c: Constellation| #[trigger] added_all(Seq::empty(), cs).contains(c) <==> cs.contains(c),
{
    law_items_after_adds(cs);
    let r = added_all(Seq::empty(), cs);
    assert forall|i: int, j: int| 0 <= i < j < r.len() implies r[i] != r[j] by {
        assert(r.no_duplicates());
    }
}

} // verus!
