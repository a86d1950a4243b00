//! The views of a layout, and how they are found.

use vstd::prelude::*;
use vstd::view::View as _;

use crate::layout::{Key, Keymap, Layout, SpriteRegion, View};
use crate::layout::{flat, key_models, view_names, KeyModel, ViewModel};
use crate::names::NameMap;
use crate::scalar::{Arithmetic, Scalar};
use crate::text::same_text;

verus! {

/// The index at which `name` first occurs in a list of names.
pub open spec fn position(names: Seq<Seq<char>>, name: Seq<char>) -> Option<int>
    decreases names.len(),
{
    if names.len() == 0 {
        None
    } else {
        match position(names.drop_last(), name) {
            Some(i) => Some(i),
            None => if names.last() == name {
                Some(names.len() - 1)
            } else {
                None
            },
        }
    }
}

/// The first position of a name holds the name and no position before it does; a
/// name has no position exactly when no place holds it.
pub proof fn lemma_position(names: Seq<Seq<char>>, name: Seq<char>)
    ensures
        position(names, name) matches Some(i) ==> 0 <= i < names.len() && names[i] == name && (
        forall|j: int| 0 <= j < i ==> names[j] != name),
        position(names, name) is None <==> forall|j: int| 0 <= j < names.len() ==> names[j] != name,
    decreases names.len(),
{
    if names.len() > 0 {
        let front = names.drop_last();
        lemma_position(front, name);
        assert forall|j: int| 0 <= j < front.len() implies front[j] == names[j] by {}
        if position(names, name) is None {
            assert forall|j: int| 0 <= j < names.len() implies names[j] != name by {
                if j < front.len() {
                    assert(front[j] != name);
                }
            }
        }
    }
}

/// Where no name occurs twice, every name is found where it stands.
pub proof fn lemma_position_of_distinct(names: Seq<Seq<char>>, i: int)
    requires
        0 <= i < names.len(),
        forall|j: int, k: int| 0 <= j < k < names.len() ==> names[j] != names[k],
    ensures
        position(names, names[i]) == Some(i),
{
    lemma_position(names, names[i]);
}

/// What a list of views stands for.
pub open spec fn view_models<N>(views: Seq<View<N>>) -> Seq<ViewModel<N>> {
    Seq::new(views.len(), |i: int| views[i].model())
}

/// The keys of each view of a list.
pub open spec fn keys_by_view<N>(views: Seq<View<N>>) -> Seq<Seq<KeyModel<N>>> {
    Seq::new(views.len(), |i: int| views[i].model().all_keys())
}

impl<N> Keymap<N> {
    pub open spec fn model(&self) -> Seq<ViewModel<N>> {
        view_models(self.views@)
    }

    /// The names of the views.
    pub open spec fn names(&self) -> Seq<Seq<char>> {
        view_names(self.views@)
    }

    /// Whether the views stand in the order of their names, none of which occurs
    /// twice.
    pub open spec fn in_order(&self) -> bool {
        forall|i: int, j: int|
            0 <= i < j < self.names().len() ==> crate::text::text_before(
                #[trigger] self.names()[i],
                #[trigger] self.names()[j],
            )
    }

    /// In a keymap whose views stand in order, each view is the one that its name
    /// finds.
    pub proof fn lemma_views_are_found(&self, i: int)
        requires
            self.in_order(),
            0 <= i < self.views@.len(),
        ensures
            position(self.names(), self.views@[i].name@) == Some(i),
    {
        let names = self.names();
        assert forall|j: int, k: int| 0 <= j < k < names.len() implies names[j] != names[k] by {
            assert(crate::text::text_before(names[j], names[k]));
            crate::text::lemma_text_order_is_strict(names[j]);
        }
        lemma_position_of_distinct(names, i);
    }

    /// Every key in the keymap, flattened across every view.
    pub fn keys(&self) -> (keys: Vec<&Key<N>>)
        ensures
            key_models(keys@) == flat(keys_by_view(self.views@)),
    {
        let mut keys: Vec<&Key<N>> = Vec::new();
        let mut i: usize = 0;
        let ghost lists = keys_by_view(self.views@);
        assert(key_models(keys@) =~= flat(lists.take(0)));
        while i < self.views.len()
            invariant
                i <= self.views.len(),
                lists == keys_by_view(self.views@),
                key_models(keys@) == flat(lists.take(i as int)),
            decreases self.views.len() - i,
        {
            let more = self.views[i].keys();
            let ghost done = key_models(keys@);
            let mut j: usize = 0;
            assert(done + lists[i as int].take(0) =~= done);
            while j < more.len()
                invariant
                    i < lists.len(),
                    key_models(more@) == lists[i as int],
                    j <= more.len(),
                    key_models(keys@) == done + lists[i as int].take(j as int),
                decreases more.len() - j,
            {
                let ghost had = key_models(keys@);
                assert(lists[i as int][j as int] == more@[j as int].model());
                keys.push(more[j]);
                assert(key_models(keys@) =~= had.push(lists[i as int][j as int]));
                j += 1;
                assert(key_models(keys@) =~= done + lists[i as int].take(j as int));
            }
            assert(key_models(more@).len() == more@.len());
            i += 1;
            assert(lists.take(i as int).drop_last() =~= lists.take(i - 1));
            assert(key_models(keys@) =~= flat(lists.take(i as int)));
        }
        assert(lists.take(i as int) =~= lists);
        keys
    }

    /// The index of the view with this name, for storing as the current view.
    pub fn index_of(&self, name: &str) -> (index: Option<usize>)
        ensures
            index is Some <==> position(self.names(), name@) is Some,
            index matches Some(i) ==> i < self.views@.len() && position(self.names(), name@) == Some(
                i as int,
            ),
    {
        let mut i: usize = 0;
        while i < self.views.len()
            invariant
                i <= self.views.len(),
                position(self.names().take(i as int), name@) is None,
            decreases self.views.len() - i,
        {
            proof {
                lemma_position_grows(self.names(), name@, i as int);
            }
            if same_text(self.views[i].name.as_str(), name) {
                return Some(i);
            }
            i += 1;
        }
        assert(self.names().take(i as int) =~= self.names());
        None
    }

    /// Look a view up by name (e.g. the initial `base` view).
    pub fn view(&self, name: &str) -> (found: Option<&View<N>>)
        ensures
            found == (match position(self.names(), name@) {
                Some(i) => Some(&self.views@[i]),
                None => None,
            }),
    {
        match self.index_of(name) {
            Some(i) => Some(&self.views[i]),
            None => None,
        }
    }
}

proof fn lemma_position_grows(names: Seq<Seq<char>>, name: Seq<char>, i: int)
    requires
        0 <= i < names.len(),
        position(names.take(i), name) is None,
    ensures
        names[i] == name ==> position(names, name) == Some(i),
        names[i] != name ==> position(names.take(i + 1), name) is None,
{
    assert(names.take(i + 1).drop_last() =~= names.take(i));
    lemma_position(names.take(i), name);
    lemma_position(names, name);
    assert forall|j: int| 0 <= j < i implies names[j] != name by {
        assert(names.take(i)[j] != name);
    }
}

impl<N> Layout<N> {
    /// The views that a layout resolves to, in the order of their names.
    pub open spec fn keymap_of(
        &self,
        m: Arithmetic<N>,
        icons: Map<Seq<char>, SpriteRegion<N>>,
    ) -> Seq<ViewModel<N>> {
        Seq::new(
            self.views.entries().len(),
            |i: int|
                self.view_of(
                    m,
                    icons,
                    self.views.entries()[i].name@,
                    crate::text::texts(self.views.entries()[i].value@),
                ),
        )
    }
}

impl<N: Scalar> Keymap<N> {
    /// Convert a layout, resolving each key's face, action and geometry.
    pub fn from_layout(layout: &Layout<N>, icons: &NameMap<SpriteRegion<N>>) -> (keymap: Self)
        ensures
            keymap.names() == layout.views.names(),
            keymap.in_order(),
            forall|i: int|
                0 <= i < keymap.views@.len() ==> layout.suit(
                    icons@,
                    crate::layout::tokens_of(
                        crate::text::texts(layout.views.entries()[i].value@),
                    ),
                    (#[trigger] keymap.views@[i]).model().rows,
                ),
            forall|m: Arithmetic<N>| #[trigger]
                crate::scalar::computes(m) ==> keymap.model() == layout.keymap_of(m, icons@),
    {
        let mut views: Vec<View<N>> = Vec::new();
        let n: usize = layout.views.len();
        let mut i: usize = 0;
        while i < n
            invariant
                i <= n,
                n == layout.views.entries().len(),
                views.len() == i,
                forall|k: int|
                    0 <= k < i ==> (#[trigger] views@[k]).name@ == layout.views.entries()[k].name@,
                forall|k: int|
                    0 <= k < i ==> layout.suit(
                        icons@,
                        crate::layout::tokens_of(
                            crate::text::texts(layout.views.entries()[k].value@),
                        ),
                        (#[trigger] views@[k]).model().rows,
                    ),
                forall|m: Arithmetic<N>, k: int|
                    #![trigger crate::scalar::computes(m), views@[k]]
                    crate::scalar::computes(m) && 0 <= k < i ==> views@[k].model()
                        == layout.keymap_of(m, icons@)[k],
            decreases n - i,
        {
            let entry = layout.views.entry(i);
            views.push(View::resolve(layout, icons, entry.name.as_str(), &entry.value));
            i += 1;
        }
        let keymap = Keymap { views };
        assert(keymap.names() =~= layout.views.names());
        assert forall|a: int, b: int| 0 <= a < b < keymap.names().len() implies
            crate::text::text_before(#[trigger] keymap.names()[a], #[trigger] keymap.names()[b]) by {
            assert(crate::text::text_before(
                layout.views.entries()[a].name@,
                layout.views.entries()[b].name@,
            ));
        }
        assert forall|m: Arithmetic<N>| #[trigger]
            crate::scalar::computes(m) implies keymap.model() == layout.keymap_of(m, icons@) by {
            assert(keymap.model() =~= layout.keymap_of(m, icons@));
        }
        keymap
    }
}

} // verus!
