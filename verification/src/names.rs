//! A map from names to values that is walked in the order of its names.

use vstd::prelude::*;

use crate::text::comes_before;
use crate::text::same_text;

verus! {

/// A name and what is filed under it.
pub struct Entry<V> {
    pub name: String,
    pub value: V,
}

/// A map from names to values, kept in text order: no name occurs twice, and a
/// walk by index meets the names from the first to the last.
pub struct NameMap<V> {
    entries: Vec<Entry<V>>,
}

impl<V> NameMap<V> {
    /// The entries in the order of a walk.
    pub closed spec fn entries(&self) -> Seq<Entry<V>> {
        self.entries@
    }

    /// The names in the order of a walk.
    pub open spec fn names(&self) -> Seq<Seq<char>> {
        self.entries().map_values(|e: Entry<V>| e.name@)
    }

    /// Every name comes before the names behind it.
    pub open spec fn in_order(&self) -> bool {
        forall|i: int, j: int|
            0 <= i < j < self.entries().len() ==> crate::text::text_before(
                #[trigger] self.entries()[i].name@,
                #[trigger] self.entries()[j].name@,
            )
    }

    #[verifier::type_invariant]
    spec fn well_formed(&self) -> bool {
        self.in_order()
    }

    /// Whether `name` is filed at index `i`.
    pub open spec fn filed_at(&self, name: Seq<char>, i: int) -> bool {
        0 <= i < self.entries().len() && self.entries()[i].name@ == name
    }
}

impl<V> View for NameMap<V> {
    type V = Map<Seq<char>, V>;

    open spec fn view(&self) -> Map<Seq<char>, V> {
        Map::new(
            |name: Seq<char>| exists|i: int| self.filed_at(name, i),
            |name: Seq<char>| self.entries()[choose|i: int| self.filed_at(name, i)].value,
        )
    }
}

impl<V> NameMap<V> {
    /// Of a map in order, each name is filed once, so the map holds what is filed.
    pub proof fn lemma_filed(&self, name: Seq<char>, i: int)
        requires
            self.in_order(),
            self.filed_at(name, i),
        ensures
            self@.contains_key(name),
            self@[name] == self.entries()[i].value,
            forall|j: int| self.filed_at(name, j) ==> j == i,
    {
        assert forall|j: int| self.filed_at(name, j) implies j == i by {
            crate::text::lemma_text_order_is_strict(name);
            if i < j {
                assert(crate::text::text_before(self.entries()[i].name@, self.entries()[j].name@));
            }
            if j < i {
                assert(crate::text::text_before(self.entries()[j].name@, self.entries()[i].name@));
            }
        }
    }

    /// An empty map.
    pub fn new() -> (map: Self)
        ensures
            map@ == Map::<Seq<char>, V>::empty(),
            map.entries() == Seq::<Entry<V>>::empty(),
    {
        let map = NameMap { entries: Vec::new() };
        assert(map@ =~= Map::<Seq<char>, V>::empty());
        map
    }

    /// How many names the map holds.
    pub fn len(&self) -> (n: usize)
        ensures
            n == self.entries().len(),
            self.in_order(),
    {
        proof {
            use_type_invariant(self);
        }
        self.entries.len()
    }

    /// The entry at index `i` of a walk.
    pub fn entry(&self, i: usize) -> (e: &Entry<V>)
        requires
            i < self.entries().len(),
        ensures
            *e == self.entries()[i as int],
            self.in_order(),
            self@.contains_key(e.name@),
            self@[e.name@] == e.value,
    {
        proof {
            use_type_invariant(self);
            self.lemma_filed(self.entries()[i as int].name@, i as int);
        }
        &self.entries[i]
    }

    /// What is filed under `name`, if anything is.
    pub fn get(&self, name: &str) -> (value: Option<&V>)
        ensures
            value == (if self@.contains_key(name@) {
                Some(&self@[name@])
            } else {
                None
            }),
    {
        proof {
            use_type_invariant(self);
        }
        let mut i: usize = 0;
        while i < self.entries.len()
            invariant
                self.in_order(),
                i <= self.entries().len(),
                forall|j: int| 0 <= j < i ==> !#[trigger] self.filed_at(name@, j),
            decreases self.entries.len() - i,
        {
            if same_text(self.entries[i].name.as_str(), name) {
                proof {
                    self.lemma_filed(name@, i as int);
                }
                return Some(&self.entries[i].value);
            }
            i += 1;
        }
        assert(!self@.contains_key(name@));
        None
    }

    /// File `value` under `name`, in the place of what was filed there before.
    pub fn insert(&mut self, name: String, value: V)
        ensures
            final(self)@ == old(self)@.insert(name@, value),
            final(self).in_order(),
    {
        proof {
            use_type_invariant(&*self);
        }
        let ghost was = *self;
        let mut i: usize = 0;
        while i < self.entries.len() && comes_before(self.entries[i].name.as_str(), name.as_str())
            invariant
                *self == was,
                was.in_order(),
                i <= self.entries().len(),
                forall|j: int|
                    0 <= j < i ==> crate::text::text_before(
                        #[trigger] was.entries()[j].name@,
                        name@,
                    ),
            decreases self.entries.len() - i,
        {
            i += 1;
        }
        let mut entries: Vec<Entry<V>> = Vec::new();
        std::mem::swap(&mut self.entries, &mut entries);
        let replaced: bool = i < entries.len() && same_text(entries[i].name.as_str(), name.as_str());
        let entry = Entry { name, value };
        let ghost e = entry;
        if replaced {
            entries[i] = entry;
        } else {
            entries.insert(i, entry);
        }
        proof {
            let now = NameMap { entries };
            Self::lemma_insert(was, now, i as int, e, replaced);
        }
        self.entries = entries;
    }

    proof fn lemma_insert(
        was: NameMap<V>,
        now: NameMap<V>,
        i: int,
        e: Entry<V>,
        replaced: bool,
    )
        requires
            was.in_order(),
            0 <= i <= was.entries().len(),
            forall|j: int|
                0 <= j < i ==> crate::text::text_before(#[trigger] was.entries()[j].name@, e.name@),
            i < was.entries().len() ==> !crate::text::text_before(was.entries()[i].name@, e.name@),
            replaced == (i < was.entries().len() && was.entries()[i].name@ == e.name@),
            now.entries() == if replaced {
                was.entries().update(i, e)
            } else {
                was.entries().insert(i, e)
            },
        ensures
            now.in_order(),
            now@ == was@.insert(e.name@, e.value),
    {
        let name = e.name@;
        let shift: int = if replaced { 0 } else { 1 };
        // What stands behind the new entry comes after its name.
        assert forall|j: int| i + (1 - shift) <= j < was.entries().len() implies
            crate::text::text_before(name, #[trigger] was.entries()[j].name@) by {
            let at = was.entries()[i].name@;
            crate::text::lemma_text_order_is_total(at, name);
            if j > i {
                assert(crate::text::text_before(at, was.entries()[j].name@));
                if !replaced {
                    crate::text::lemma_text_order_is_transitive(name, at, was.entries()[j].name@);
                }
            }
        }
        assert forall|j: int, k: int| 0 <= j < k < now.entries().len() implies
            crate::text::text_before(
            #[trigger] now.entries()[j].name@,
            #[trigger] now.entries()[k].name@,
        ) by {
            let oj = if j < i { j } else { j - shift };
            let ok = if k < i { k } else { k - shift };
            if j != i && k != i {
                assert(now.entries()[j] == was.entries()[oj]);
                assert(now.entries()[k] == was.entries()[ok]);
            } else if j == i {
                assert(now.entries()[k] == was.entries()[ok]);
            } else {
                assert(now.entries()[j] == was.entries()[oj]);
            }
        }
        assert(now.filed_at(name, i));
        now.lemma_filed(name, i);
        assert forall|x: Seq<char>| x != name implies #[trigger] now@.contains_key(x)
            == was@.contains_key(x) && (now@.contains_key(x) ==> now@[x] == was@[x]) by {
            if now@.contains_key(x) {
                let k = choose|k: int| now.filed_at(x, k);
                let ok = if k < i { k } else { k - shift };
                assert(now.entries()[k] == was.entries()[ok]);
                assert(was.filed_at(x, ok));
                now.lemma_filed(x, k);
                was.lemma_filed(x, ok);
            }
            if was@.contains_key(x) {
                let k = choose|k: int| was.filed_at(x, k);
                let nk = if k < i { k } else { k + shift };
                assert(now.entries()[nk] == was.entries()[k]);
                assert(now.filed_at(x, nk));
            }
        }
        assert(now@ =~= was@.insert(name, e.value));
    }
}

} // verus!
