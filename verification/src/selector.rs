//! Radio-button selectors that HTML reports use to pick a data set
//! (axis, position or velocity, constellation, data source).
use crate::keyed::KeyView;
use crate::model::Constellation;
use vstd::prelude::*;

verus! {

/// Selector of constellations.
pub type ConstellationSelector = Selector<Constellation>;

/// Cartesian axis.
#[derive(Debug, Copy, Clone, PartialEq, Eq, Structural)]
pub enum Axis {
    X,
    Y,
    Z,
}

impl View for Axis {
    type V = Axis;

    open spec fn view(&self) -> Axis {
        *self
    }
}

impl KeyView for Axis {
    fn same_key(&self, other: &Self) -> (b: bool) {
        *self == *other
    }

    fn copy_key(&self) -> (r: Self) {
        *self
    }
}

impl Axis {
    /// The axis a selector starts from.
    pub fn default_axis() -> (a: Axis)
        ensures
            a == Axis::X,
    {
        Axis::X
    }

    /// Text shown for this axis.
    pub open spec fn spec_label(self) -> Seq<char> {
        match self {
            Axis::X => "X"@,
            Axis::Y => "Y"@,
            Axis::Z => "Z"@,
        }
    }

    /// Text shown for this axis.
    pub fn label(&self) -> (s: &'static str)
        ensures
            s@ == self.spec_label(),
    {
        match self {
            Axis::X => "X",
            Axis::Y => "Y",
            Axis::Z => "Z",
        }
    }
}

/// Position or velocity.
#[derive(Debug, Copy, Clone, PartialEq, Eq, Structural)]
pub enum PosVel {
    Position,
    Velocity,
}

impl View for PosVel {
    type V = PosVel;

    open spec fn view(&self) -> PosVel {
        *self
    }
}

impl KeyView for PosVel {
    fn same_key(&self, other: &Self) -> (b: bool) {
        *self == *other
    }

    fn copy_key(&self) -> (r: Self) {
        *self
    }
}

impl PosVel {
    /// The choice a selector starts from.
    pub fn default_choice() -> (p: PosVel)
        ensures
            p == PosVel::Position,
    {
        PosVel::Position
    }

    /// Text shown for this choice.
    pub open spec fn spec_label(self) -> Seq<char> {
        match self {
            PosVel::Position => "Position"@,
            PosVel::Velocity => "Velocity"@,
        }
    }

    /// Text shown for this choice.
    pub fn label(&self) -> (s: &'static str)
        ensures
            s@ == self.spec_label(),
    {
        match self {
            PosVel::Position => "Position",
            PosVel::Velocity => "Velocity",
        }
    }
}

/// What one radio button of a selector shows.
#[derive(Debug, Clone, PartialEq, Eq)]
pub enum RadioLabel<T> {
    /// The "select everything" button when the selector holds two items.
    Both,
    /// The "select everything" button otherwise.
    All,
    /// One of the selector's items.
    Item(T),
}

/// True when `label` shows an item whose view is `v`.
pub open spec fn shows_item<T: View>(label: RadioLabel<T>, v: T::V) -> bool {
    match label {
        RadioLabel::Item(t) => t@ == v,
        _ => false,
    }
}

/// True when `o` shows the item whose view is `v`, checked exactly when
/// `checked` holds.
pub open spec fn item_option<T: View>(o: RadioOption<T>, v: T::V, checked: bool) -> bool {
    shows_item(o.label, v) && o.checked == checked
}

/// One radio button of a selector: what it shows and whether it starts checked.
#[derive(Debug, Clone, PartialEq, Eq)]
pub struct RadioOption<T> {
    pub label: RadioLabel<T>,
    pub checked: bool,
}

/// A set of choices rendered as radio buttons, kept in insertion order and
/// without repetition. When `allows_all` is set, a first button selects
/// every item.
pub struct Selector<T: KeyView> {
    html_id: String,
    allows_all: bool,
    inner: Vec<T>,
}

/// True when no two elements of `s` have the same view.
pub open spec fn views_distinct<T: View>(s: Seq<T>) -> bool {
    forall|i: int, j: int| 0 <= i < j < s.len() ==> s[i]@ != s[j]@
}

/// The items after adding `x`: unchanged when an equal item is present,
/// else `x` comes last.
pub open spec fn added<V>(s: Seq<V>, x: V) -> Seq<V> {
    if s.contains(x) {
        s
    } else {
        s.push(x)
    }
}

/// Adding an item twice has the effect of adding it once; the item is then
/// present, and items never repeat.
pub proof fn law_add_idempotent<V>(s: Seq<V>, x: V)
    requires
        s.no_duplicates(),
    ensures
        added(added(s, x), x) == added(s, x),
        added(s, x).contains(x),
        added(s, x).no_duplicates(),
{
    if !s.contains(x) {
        assert(s.push(x)[s.len() as int] == x);
        assert forall|i: int, j: int|
            0 <= i < s.push(x).len() && 0 <= j < s.push(x).len() && i != j implies s.push(x)[i]
            != s.push(x)[j] by {
            if i == s.len() {
                assert(s[j] == s.push(x)[j]);
            } else if j == s.len() {
                assert(s[i] == s.push(x)[i]);
            }
        }
    }
    assert(added(s, x).contains(x));
}

/// The items after adding each element of `xs` in turn to `s`.
pub open spec fn added_all<V>(s: Seq<V>, xs: Seq<V>) -> Seq<V>
    decreases xs.len(),
{
    if xs.len() == 0 {
        s
    } else {
        added(added_all(s, xs.drop_last()), xs.last())
    }
}

/// Starting from an empty selector, whatever items are added, the selector
/// holds exactly the items added, each once; so it has content exactly when
/// at least one item was added.
pub proof fn law_items_after_adds<V>(xs: Seq<V>)
    ensures
        added_all(Seq::empty(), xs).len() > 0 <==> xs.len() > 0,
        added_all(Seq::empty(), xs).no_duplicates(),
        forall|x: V| #[trigger] added_all(Seq::empty(), xs).contains(x) <==> xs.contains(x),
    decreases xs.len(),
{
    if xs.len() > 0 {
        let rest = xs.drop_last();
        let x = xs.last();
        law_items_after_adds(rest);
        let before = added_all(Seq::empty(), rest);
        law_add_idempotent(before, x);
        assert(xs[xs.len() - 1] == x);
        assert forall|y: V| #[trigger] added_all(Seq::empty(), xs).contains(y) <==> xs.contains(y) by {
            if xs.contains(y) && y != x {
                let i = choose|i: int| 0 <= i < xs.len() && xs[i] == y;
                assert(rest[i] == y);
                assert(rest.contains(y));
            }
            if rest.contains(y) {
                let i = choose|i: int| 0 <= i < rest.len() && rest[i] == y;
                assert(xs[i] == y);
            }
            if added_all(Seq::empty(), xs).contains(y) && y != x {
                if !before.contains(x) {
                    let i = choose|i: int| 0 <= i < before.push(x).len() && before.push(x)[i] == y;
                    assert(before[i] == y);
                }
            }
            if before.contains(y) && !before.contains(x) {
                let i = choose|i: int| 0 <= i < before.len() && before[i] == y;
                assert(before.push(x)[i] == y);
            }
        }
        assert(added_all(Seq::empty(), xs).contains(x));
    }
}

/// The views of the elements of `s`.
pub open spec fn views_of<T: View>(s: Seq<T>) -> Seq<T::V> {
    s.map_values(|t: T| t@)
}

impl<T: KeyView> Selector<T> {
    #[verifier::type_invariant]
    closed spec fn inv(self) -> bool {
        views_distinct(self.inner@)
    }

    /// HTML identifier of the form.
    pub closed spec fn spec_html_id(self) -> Seq<char> {
        self.html_id@
    }

    /// Whether a "select everything" button comes first.
    pub closed spec fn spec_allows_all(self) -> bool {
        self.allows_all
    }

    /// The items, in insertion order.
    pub closed spec fn items(self) -> Seq<T> {
        self.inner@
    }

    /// Creates an empty selector.
    pub fn new(html_id: &str, allows_all: bool) -> (s: Self)
        ensures
            s@ == Seq::<T::V>::empty(),
            s.spec_html_id() == html_id@,
            s.spec_allows_all() == allows_all,
    {
        let s = Selector { allows_all, html_id: String::from_str(html_id), inner: Vec::new() };
        proof {
            assert(views_of(s.inner@) =~= Seq::<T::V>::empty());
        }
        s
    }

    /// True when at least one item was added.
    pub fn has_content(&self) -> (b: bool)
        ensures
            b == (self@.len() > 0),
    {
        self.inner.len() > 0
    }

    /// True when an item with the view of `item` is present.
    pub fn contains(&self, item: &T) -> (b: bool)
        ensures
            b == self@.contains(item@),
    {
        let mut i: usize = 0;
        while i < self.inner.len()
            invariant
                i <= self.inner@.len(),
                forall|j: int| 0 <= j < i ==> self.inner@[j]@ != item@,
            decreases self.inner@.len() - i,
        {
            if self.inner[i].same_key(item) {
                proof {
                    assert(self@[i as int] == item@);
                }
                return true;
            }
            i = i + 1;
        }
        proof {
            if self@.contains(item@) {
                let j = choose|j: int| 0 <= j < self@.len() && self@[j] == item@;
                assert(self.inner@[j]@ == item@);
            }
        }
        false
    }

    /// Adds `item` unless an equal item is already present.
    pub fn add(&mut self, item: &T)
        ensures
            final(self)@ == added(old(self)@, item@),
            final(self).spec_html_id() == old(self).spec_html_id(),
            final(self).spec_allows_all() == old(self).spec_allows_all(),
    {
        proof {
            use_type_invariant(&*self);
        }
        if !self.contains(item) {
            let ghost old_inner = self.inner@;
            let copy = item.copy_key();
            let mut tmp = Selector { html_id: String::new(), allows_all: false, inner: Vec::new() };
            std::mem::swap(&mut tmp, self);
            let Selector { html_id, allows_all, mut inner } = tmp;
            inner.push(copy);
            proof {
                assert forall|i: int, j: int| 0 <= i < j < inner@.len() implies inner@[i]@
                    != inner@[j]@ by {
                    if j == old_inner.len() {
                        assert(views_of(old_inner)[i] == old_inner[i]@);
                    }
                }
                assert(views_of(inner@) =~= views_of(old_inner).push(item@));
            }
            *self = Selector { html_id, allows_all, inner };
        }
    }

    /// Number of items.
    pub fn len(&self) -> (n: usize)
        ensures
            n == self@.len(),
    {
        self.inner.len()
    }

    /// The `i`-th item.
    pub fn item(&self, i: usize) -> (t: &T)
        requires
            i < self@.len(),
        ensures
            t@ == self@[i as int],
    {
        &self.inner[i]
    }

    /// HTML identifier of the form.
    pub fn html_id(&self) -> (s: &str)
        ensures
            s@ == self.spec_html_id(),
    {
        self.html_id.as_str()
    }

    /// Whether a "select everything" button comes first.
    pub fn allows_all(&self) -> (b: bool)
        ensures
            b == self.spec_allows_all(),
    {
        self.allows_all
    }

    /// The radio buttons of this selector, in display order: when
    /// `allows_all` holds, a checked "Both" button (exactly two items) or
    /// "All" button (otherwise) comes first; then one button per item, of
    /// which only the first is checked, and only when there is no
    /// "select everything" button.
    pub fn radio_options(&self) -> (r: Vec<RadioOption<T>>)
        ensures
            r@.len() == (if self.spec_allows_all() { 1int } else { 0int }) + self@.len(),
            self.spec_allows_all() ==> r@[0].checked && r@[0].label == (if self@.len() == 2 {
                RadioLabel::<T>::Both
            } else {
                RadioLabel::<T>::All
            }),
            forall|i: int|
                0 <= i < self@.len() ==> item_option(
                    r@[(if self.spec_allows_all() { 1int } else { 0int }) + i],
                    #[trigger] self@[i],
                    i == 0 && !self.spec_allows_all(),
                ),
    {
        let mut r: Vec<RadioOption<T>> = Vec::new();
        let off: usize = if self.allows_all {
            1
        } else {
            0
        };
        if self.allows_all {
            if self.inner.len() == 2 {
                r.push(RadioOption { label: RadioLabel::Both, checked: true });
            } else {
                r.push(RadioOption { label: RadioLabel::All, checked: true });
            }
        }
        let mut i: usize = 0;
        while i < self.inner.len()
            invariant
                i <= self.inner@.len(),
                off == (if self.allows_all { 1usize } else { 0usize }),
                r@.len() == off + i,
                self.allows_all ==> r@[0].checked && r@[0].label == (if self.inner@.len() == 2 {
                    RadioLabel::<T>::Both
                } else {
                    RadioLabel::<T>::All
                }),
                forall|j: int|
                    0 <= j < i ==> item_option(
                        r@[off + j],
                        #[trigger] self.inner@[j]@,
                        j == 0 && !self.allows_all,
                    ),
            decreases self.inner@.len() - i,
        {
            let ghost before = r@;
            let item = self.inner[i].copy_key();
            let ghost gitem = item;
            r.push(RadioOption { label: RadioLabel::Item(item), checked: i == 0 && !self.allows_all });
            proof {
                assert forall|j: int| 0 <= j < i + 1 implies item_option(
                    r@[off + j],
                    #[trigger] self.inner@[j]@,
                    j == 0 && !self.allows_all,
                ) by {
                    if j < i {
                        assert(r@[off + j] == before[off + j]);
                    } else {
                        assert(r@[off + j].label == RadioLabel::Item(gitem));
                        assert(gitem@ == self.inner@[j]@);
                    }
                }
            }
            i = i + 1;
        }
        proof {
            assert forall|j: int| 0 <= j < self@.len() implies #[trigger] self@[j] == self.inner@[j]@ by {}
        }
        r
    }
}

/// True when `form` lists one button per element of `items`, in order, of
/// which only the first is checked, followed, when there are several items,
/// by an unchecked "All" button.
pub open spec fn is_choice_form<T: View>(form: Seq<RadioOption<T>>, items: Seq<T::V>) -> bool {
    &&& form.len() == items.len() + (if items.len() > 1 { 1int } else { 0int })
    &&& forall|i: int| 0 <= i < items.len() ==> item_option(#[trigger] form[i], items[i], i == 0)
    &&& items.len() > 1 ==> form[items.len() as int] == RadioOption::<T> {
        label: RadioLabel::All,
        checked: false,
    }
}

/// The buttons of a choice among `items`: one per item, in order, the first
/// one checked, then an "All" button when there are several items.
pub fn choice_form<T: KeyView>(items: &Vec<T>) -> (form: Vec<RadioOption<T>>)
    ensures
        is_choice_form(form@, views_of(items@)),
{
    let mut form: Vec<RadioOption<T>> = Vec::new();
    let mut i: usize = 0;
    while i < items.len()
        invariant
            i <= items@.len(),
            form@.len() == i,
            forall|j: int| 0 <= j < i ==> item_option(#[trigger] form@[j], items@[j]@, j == 0),
        decreases items@.len() - i,
    {
        let ghost before = form@;
        let item = items[i].copy_key();
        let ghost gitem = item;
        form.push(RadioOption { label: RadioLabel::Item(item), checked: i == 0 });
        proof {
            assert forall|j: int| 0 <= j < i + 1 implies item_option(
                #[trigger] form@[j],
                items@[j]@,
                j == 0,
            ) by {
                if j < i {
                    assert(form@[j] == before[j]);
                } else {
                    assert(form@[j].label == RadioLabel::Item(gitem));
                }
            }
        }
        i = i + 1;
    }
    if items.len() > 1 {
        form.push(RadioOption { label: RadioLabel::All, checked: false });
    }
    proof {
        let iv = views_of(items@);
        assert forall|j: int| 0 <= j < iv.len() implies item_option(#[trigger] form@[j], iv[j], j == 0) by {
            assert(iv[j] == items@[j]@);
        }
    }
    form
}

impl<T: KeyView> View for Selector<T> {
    type V = Seq<T::V>;

    closed spec fn view(&self) -> Seq<T::V> {
        views_of(self.inner@)
    }
}

/// Position / velocity selector: offers both, with a "Both" button.
pub struct PosVelSelector {
    pub selector: Selector<PosVel>,
}

impl PosVelSelector {
    /// Selector offering position then velocity.
    pub fn new(html_id: &str) -> (s: Self)
        ensures
            s.selector@ == seq![PosVel::Position, PosVel::Velocity],
            s.selector.spec_allows_all(),
            s.selector.spec_html_id() == html_id@,
    {
        let mut selector = Selector::new(html_id, true);
        selector.add(&PosVel::Position);
        selector.add(&PosVel::Velocity);
        PosVelSelector { selector }
    }
}

/// Axis selector: offers X, Y and Z, with an "All" button.
pub struct AxisSelector {
    pub selector: Selector<Axis>,
}

impl AxisSelector {
    /// Selector offering X, Y then Z.
    pub fn new(html_id: &str) -> (s: Self)
        ensures
            s.selector@ == seq![Axis::X, Axis::Y, Axis::Z],
            s.selector.spec_allows_all(),
            s.selector.spec_html_id() == html_id@,
    {
        let mut selector = Selector::new(html_id, true);
        selector.add(&Axis::X);
        selector.add(&Axis::Y);
        selector.add(&Axis::Z);
        AxisSelector { selector }
    }
}

} // verus!
