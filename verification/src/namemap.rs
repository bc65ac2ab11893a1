//! A map keyed by names, kept in insertion order.
//!
//! Lookup is case-sensitive, a second insert under a name replaces the
//! value and keeps the name's place, and no name occurs twice.

use vstd::prelude::*;
use crate::text::str_eq;

verus! {

/// The map that a sequence of entries stands for: each name bound to the
/// value of its last entry.
pub open spec fn bindings<V>(entries: Seq<(Seq<char>, V)>) -> Map<Seq<char>, V>
    decreases entries.len(),
{
    if entries.len() == 0 {
        Map::empty()
    } else {
        bindings(entries.drop_last()).insert(entries.last().0, entries.last().1)
    }
}

/// Whether no name occurs in two entries.
pub open spec fn distinct_names<V>(entries: Seq<(Seq<char>, V)>) -> bool {
    forall|i: int, j: int|
        0 <= i < entries.len() && 0 <= j < entries.len() && i != j ==> entries[i].0
            != entries[j].0
}

/// A name is bound exactly when some entry carries it.
pub proof fn lemma_bindings_dom<V>(entries: Seq<(Seq<char>, V)>, name: Seq<char>)
    ensures
        bindings(entries).contains_key(name) <==> exists|i: int|
            0 <= i < entries.len() && #[trigger] entries[i].0 == name,
    decreases entries.len(),
{
    if entries.len() > 0 {
        let front = entries.drop_last();
        lemma_bindings_dom(front, name);
        if bindings(entries).contains_key(name) {
            if entries.last().0 == name {
                assert(entries[entries.len() - 1].0 == name);
            } else {
                let i = choose|i: int| 0 <= i < front.len() && #[trigger] front[i].0 == name;
                assert(entries[i].0 == name);
            }
        }
        if exists|i: int| 0 <= i < entries.len() && #[trigger] entries[i].0 == name {
            let i = choose|i: int| 0 <= i < entries.len() && #[trigger] entries[i].0 == name;
            if i < entries.len() - 1 {
                assert(front[i].0 == name);
            }
        }
    }
}

/// With distinct names, each entry's name is bound to that entry's value.
pub proof fn lemma_bindings_at<V>(entries: Seq<(Seq<char>, V)>, i: int)
    requires
        distinct_names(entries),
        0 <= i < entries.len(),
    ensures
        bindings(entries).contains_key(entries[i].0),
        bindings(entries)[entries[i].0] == entries[i].1,
    decreases entries.len(),
{
    let front = entries.drop_last();
    if i < entries.len() - 1 {
        assert(distinct_names(front)) by {
            assert forall|a: int, b: int|
                0 <= a < front.len() && 0 <= b < front.len() && a != b implies front[a].0
                != front[b].0 by {
                assert(front[a] == entries[a]);
                assert(front[b] == entries[b]);
            }
        }
        lemma_bindings_at(front, i);
        assert(front[i] == entries[i]);
        assert(entries.last().0 != entries[i].0);
    }
}

/// Replacing an entry's value keeps the names distinct.
pub proof fn lemma_update_keeps_names<V>(entries: Seq<(Seq<char>, V)>, i: int, value: V)
    requires
        distinct_names(entries),
        0 <= i < entries.len(),
    ensures
        distinct_names(entries.update(i, (entries[i].0, value))),
{
    let after = entries.update(i, (entries[i].0, value));
    assert forall|a: int, b: int|
        0 <= a < after.len() && 0 <= b < after.len() && a != b implies after[a].0
        != after[b].0 by {
        assert(after[a].0 == entries[a].0);
        assert(after[b].0 == entries[b].0);
    }
}

/// Replacing an entry's value rebinds its name and nothing else.
pub proof fn lemma_bindings_update<V>(entries: Seq<(Seq<char>, V)>, i: int, value: V)
    requires
        distinct_names(entries),
        0 <= i < entries.len(),
    ensures
        bindings(entries.update(i, (entries[i].0, value))) == bindings(entries).insert(
            entries[i].0,
            value,
        ),
{
    let after = entries.update(i, (entries[i].0, value));
    let want = bindings(entries).insert(entries[i].0, value);
    lemma_update_keeps_names(entries, i, value);
    assert forall|name: Seq<char>| bindings(after).contains_key(name) == want.contains_key(
        name,
    ) by {
        lemma_bindings_dom(after, name);
        lemma_bindings_dom(entries, name);
        if exists|j: int| 0 <= j < after.len() && #[trigger] after[j].0 == name {
            let j = choose|j: int| 0 <= j < after.len() && #[trigger] after[j].0 == name;
            assert(entries[j].0 == name);
        }
        if exists|j: int| 0 <= j < entries.len() && #[trigger] entries[j].0 == name {
            let j = choose|j: int| 0 <= j < entries.len() && #[trigger] entries[j].0 == name;
            assert(after[j].0 == name);
        }
    }
    assert forall|name: Seq<char>| bindings(after).contains_key(name) implies bindings(
        after,
    )[name] == want[name] by {
        lemma_bindings_dom(after, name);
        let j = choose|j: int| 0 <= j < after.len() && #[trigger] after[j].0 == name;
        lemma_bindings_at(after, j);
        assert(entries[j].0 == name);
        lemma_bindings_at(entries, j);
    }
    assert(bindings(after) =~= want);
}

/// Taking an entry out unbinds its name and nothing else.
pub proof fn lemma_bindings_remove<V>(entries: Seq<(Seq<char>, V)>, i: int)
    requires
        distinct_names(entries),
        0 <= i < entries.len(),
    ensures
        distinct_names(entries.remove(i)),
        bindings(entries.remove(i)) == bindings(entries).remove(entries[i].0),
{
    let after = entries.remove(i);
    assert forall|a: int, b: int|
        0 <= a < after.len() && 0 <= b < after.len() && a != b implies after[a].0
        != after[b].0 by {
        let x = if a < i {
            a
        } else {
            a + 1
        };
        let y = if b < i {
            b
        } else {
            b + 1
        };
        assert(after[a] == entries[x]);
        assert(after[b] == entries[y]);
    }
    let want = bindings(entries).remove(entries[i].0);
    assert forall|name: Seq<char>| bindings(after).contains_key(name) == want.contains_key(
        name,
    ) by {
        lemma_bindings_dom(after, name);
        lemma_bindings_dom(entries, name);
        if exists|j: int| 0 <= j < after.len() && #[trigger] after[j].0 == name {
            let j = choose|j: int| 0 <= j < after.len() && #[trigger] after[j].0 == name;
            let x = if j < i {
                j
            } else {
                j + 1
            };
            assert(after[j] == entries[x]);
            assert(entries[x].0 == name);
        }
        if want.contains_key(name) {
            let j = choose|j: int| 0 <= j < entries.len() && #[trigger] entries[j].0 == name;
            let x = if j < i {
                j
            } else {
                j - 1
            };
            assert(after[x] == entries[j]);
            assert(after[x].0 == name);
        }
    }
    assert forall|name: Seq<char>| bindings(after).contains_key(name) implies bindings(
        after,
    )[name] == want[name] by {
        lemma_bindings_dom(after, name);
        let j = choose|j: int| 0 <= j < after.len() && #[trigger] after[j].0 == name;
        lemma_bindings_at(after, j);
        let x = if j < i {
            j
        } else {
            j + 1
        };
        assert(after[j] == entries[x]);
        lemma_bindings_at(entries, x);
    }
    assert(bindings(after) =~= want);
}

/// Stored entries with each name taken by its characters.
pub open spec fn viewed<V>(stored: Seq<(String, V)>) -> Seq<(Seq<char>, V)> {
    Seq::new(stored.len(), |i: int| (stored[i].0@, stored[i].1))
}

/// Each value of `m` by its characters.
pub open spec fn as_text(m: Map<Seq<char>, String>) -> Map<Seq<char>, Seq<char>> {
    Map::new(|name: Seq<char>| m.contains_key(name), |name: Seq<char>| m[name]@)
}

/// Each map of `m` with its values by their characters.
pub open spec fn as_nested_text(m: Map<Seq<char>, NameMap<String>>) -> Map<
    Seq<char>,
    Map<Seq<char>, Seq<char>>,
> {
    Map::new(|name: Seq<char>| m.contains_key(name), |name: Seq<char>| as_text(m[name]@))
}

/// A map from names to values of type `V`.
#[derive(Debug)]
pub struct NameMap<V> {
    entries: Vec<(String, V)>,
}

impl<V> NameMap<V> {
    /// The entries as pairs of a name's characters and its value.
    pub closed spec fn pairs(&self) -> Seq<(Seq<char>, V)> {
        viewed(self.entries@)
    }

    #[verifier::type_invariant]
    spec fn well_formed(&self) -> bool {
        distinct_names(self.pairs())
    }

    /// The names in insertion order.
    pub open spec fn names(&self) -> Seq<Seq<char>> {
        Seq::new(self.pairs().len(), |i: int| self.pairs()[i].0)
    }

    /// What each name is bound to.
    pub open spec fn view(&self) -> Map<Seq<char>, V> {
        bindings(self.pairs())
    }

    /// The number of names.
    pub open spec fn spec_len(&self) -> nat {
        self.pairs().len()
    }

    /// An empty map.
    pub fn new() -> (m: Self)
        ensures
            m.pairs() == Seq::<(Seq<char>, V)>::empty(),
            m@ == Map::<Seq<char>, V>::empty(),
    {
        let m = NameMap { entries: Vec::new() };
        assert(m.pairs() == Seq::<(Seq<char>, V)>::empty());
        m
    }

    /// The number of names.
    pub fn len(&self) -> (n: usize)
        ensures
            n == self.spec_len(),
            distinct_names(self.pairs()),
    {
        proof {
            use_type_invariant(self);
        }
        self.entries.len()
    }

    /// Whether the map holds no name.
    pub fn is_empty(&self) -> (b: bool)
        ensures
            b == (self.pairs().len() == 0),
            b == (self@ == Map::<Seq<char>, V>::empty()),
    {
        proof {
            if self.pairs().len() > 0 {
                lemma_bindings_dom(self.pairs(), self.pairs()[0].0);
                assert(self@.contains_key(self.pairs()[0].0));
            }
        }
        self.entries.len() == 0
    }

    /// The place of `name` among the entries, if it is bound.
    pub fn position(&self, name: &str) -> (r: Option<usize>)
        ensures
            distinct_names(self.pairs()),
            match r {
                Some(i) => i < self.pairs().len() && self.pairs()[i as int].0 == name@
                    && self@.contains_key(name@) && self@[name@] == self.pairs()[i as int].1,
                None => !self@.contains_key(name@) && forall|i: int|
                    0 <= i < self.pairs().len() ==> (#[trigger] self.pairs()[i]).0 != name@,
            },
    {
        proof {
            use_type_invariant(self);
        }
        let mut i: usize = 0;
        while i < self.entries.len()
            invariant
                i <= self.entries.len(),
                distinct_names(self.pairs()),
                forall|j: int| 0 <= j < i ==> (#[trigger] self.pairs()[j]).0 != name@,
            decreases self.entries.len() - i,
        {
            if str_eq(self.entries[i].0.as_str(), name) {
                proof {
                    assert(self.pairs()[i as int].0 == name@);
                    lemma_bindings_at(self.pairs(), i as int);
                }
                return Some(i);
            }
            i = i + 1;
        }
        proof {
            lemma_bindings_dom(self.pairs(), name@);
        }
        None
    }

    /// Whether `name` is bound.
    pub fn contains_key(&self, name: &str) -> (b: bool)
        ensures
            b == self@.contains_key(name@),
    {
        self.position(name).is_some()
    }

    /// The value bound to `name`, if any.
    pub fn get(&self, name: &str) -> (r: Option<&V>)
        ensures
            match r {
                Some(v) => self@.contains_key(name@) && *v == self@[name@],
                None => !self@.contains_key(name@),
            },
    {
        match self.position(name) {
            Some(i) => Some(&self.entries[i].1),
            None => None,
        }
    }

    /// The name of the entry at place `i`.
    pub fn name_at(&self, i: usize) -> (name: &String)
        requires
            i < self.pairs().len(),
        ensures
            name@ == self.pairs()[i as int].0,
            self@.contains_key(name@),
    {
        proof {
            use_type_invariant(self);
            lemma_bindings_at(self.pairs(), i as int);
        }
        &self.entries[i].0
    }

    /// The value of the entry at place `i`.
    pub fn value_at(&self, i: usize) -> (value: &V)
        requires
            i < self.pairs().len(),
        ensures
            *value == self.pairs()[i as int].1,
            self@.contains_key(self.pairs()[i as int].0),
            self@[self.pairs()[i as int].0] == *value,
    {
        proof {
            use_type_invariant(self);
            lemma_bindings_at(self.pairs(), i as int);
        }
        &self.entries[i].1
    }

    /// Unbinds `name`, and hands back what it was bound to. The other
    /// names keep their order.
    pub fn remove(&mut self, name: &str) -> (previous: Option<V>)
        ensures
            final(self)@ == old(self)@.remove(name@),
            match previous {
                Some(v) => old(self)@.contains_key(name@) && v == old(self)@[name@] && exists|
                    i: int,
                |
                    0 <= i < old(self).pairs().len() && old(self).pairs()[i].0 == name@
                        && final(self).pairs() == old(self).pairs().remove(i),
                None => !old(self)@.contains_key(name@) && final(self).pairs() == old(self).pairs(),
            },
    {
        let ghost before = self.pairs();
        match self.position(name) {
            None => {
                assert(self@.remove(name@) =~= self@);
                None
            },
            Some(i) => {
                let mut entries: Vec<(String, V)> = Vec::new();
                std::mem::swap(&mut self.entries, &mut entries);
                let taken = entries.remove(i);
                proof {
                    assert(viewed(entries@) =~= before.remove(i as int));
                    lemma_bindings_remove(before, i as int);
                }
                self.entries = entries;
                Some(taken.1)
            },
        }
    }

    /// The entries, in their order.
    pub fn into_entries(self) -> (entries: Vec<(String, V)>)
        ensures
            viewed(entries@) == self.pairs(),
            distinct_names(self.pairs()),
    {
        proof {
            use_type_invariant(&self);
        }
        self.entries
    }

    /// Unbinds every name.
    pub fn clear(&mut self)
        ensures
            final(self).pairs() == Seq::<(Seq<char>, V)>::empty(),
            final(self)@ == Map::<Seq<char>, V>::empty(),
    {
        let entries: Vec<(String, V)> = Vec::new();
        assert(viewed(entries@) =~= Seq::<(Seq<char>, V)>::empty());
        self.entries = entries;
    }

    /// A copy with the same names in the same places, each value a clone of
    /// the value at its place.
    pub fn duplicate(&self) -> (copy: Self) where V: Clone
        ensures
            copy.pairs().len() == self.pairs().len(),
            forall|i: int|
                0 <= i < self.pairs().len() ==> (#[trigger] copy.pairs()[i]).0 == self.pairs()[i].0
                    && vstd::pervasive::cloned(self.pairs()[i].1, copy.pairs()[i].1),
    {
        proof {
            use_type_invariant(self);
        }
        let mut entries: Vec<(String, V)> = Vec::new();
        let mut i: usize = 0;
        while i < self.entries.len()
            invariant
                i <= self.entries.len(),
                entries.len() == i,
                forall|j: int|
                    0 <= j < i ==> (#[trigger] viewed(entries@)[j]).0 == self.pairs()[j].0
                        && vstd::pervasive::cloned(self.pairs()[j].1, viewed(entries@)[j].1),
            decreases self.entries.len() - i,
        {
            let name = self.entries[i].0.clone();
            let value = self.entries[i].1.clone();
            let ghost before = viewed(entries@);
            entries.push((name, value));
            proof {
                assert(vstd::pervasive::cloned(self.pairs()[i as int].1, value));
                assert(viewed(entries@) == before.push((name@, value)));
                assert forall|j: int| 0 <= j < i + 1 implies (#[trigger] viewed(entries@)[j]).0
                    == self.pairs()[j].0 && vstd::pervasive::cloned(
                    self.pairs()[j].1,
                    viewed(entries@)[j].1,
                ) by {
                    if j < i {
                        assert(viewed(entries@)[j] == before[j]);
                    }
                }
            }
            i = i + 1;
        }
        proof {
            assert forall|a: int, b: int|
                0 <= a < entries.len() && 0 <= b < entries.len() && a != b implies viewed(
                entries@,
            )[a].0 != viewed(entries@)[b].0 by {
                assert(viewed(entries@)[a].0 == self.pairs()[a].0);
                assert(viewed(entries@)[b].0 == self.pairs()[b].0);
            }
        }
        NameMap { entries }
    }

    /// Binds `name` to `value`. A name that was bound keeps its place and
    /// hands back its earlier value; a new name goes to the end.
    pub fn insert(&mut self, name: String, value: V) -> (previous: Option<V>)
        ensures
            final(self)@ == old(self)@.insert(name@, value),
            match previous {
                Some(v) => old(self)@.contains_key(name@) && v == old(self)@[name@]
                    && exists|i: int|
                        0 <= i < old(self).pairs().len() && old(self).pairs()[i].0 == name@
                            && final(self).pairs() == old(self).pairs().update(i, (name@, value)),
                None => !old(self)@.contains_key(name@)
                    && final(self).pairs() == old(self).pairs().push((name@, value)),
            },
    {
        let ghost before = self.pairs();
        let found = self.position(name.as_str());
        let mut entries: Vec<(String, V)> = Vec::new();
        std::mem::swap(&mut self.entries, &mut entries);
        match found {
            Some(i) => {
                let mut slot = (name, value);
                std::mem::swap(&mut entries[i], &mut slot);
                proof {
                    assert(viewed(entries@) == before.update(i as int, (name@, value)));
                    lemma_update_keeps_names(before, i as int, value);
                    lemma_bindings_update(before, i as int, value);
                }
                self.entries = entries;
                Some(slot.1)
            },
            None => {
                entries.push((name, value));
                proof {
                    assert(viewed(entries@) == before.push((name@, value)));
                    assert(viewed(entries@).drop_last() == before);
                }
                self.entries = entries;
                None
            },
        }
    }
}

impl NameMap<String> {
    /// A copy that binds the same names to the same texts.
    pub fn copy(&self) -> (copy: Self)
        ensures
            copy.pairs().len() == self.pairs().len(),
            forall|i: int|
                0 <= i < self.pairs().len() ==> (#[trigger] copy.pairs()[i]).0 == self.pairs()[i].0
                    && copy.pairs()[i].1@ == self.pairs()[i].1@,
            as_text(copy@) == as_text(self@),
    {
        let copy = self.duplicate();
        proof {
            use_type_invariant(self);
            use_type_invariant(&copy);
            let a = self.pairs();
            let b = copy.pairs();
            assert forall|i: int| 0 <= i < a.len() implies (#[trigger] b[i]).1@ == a[i].1@ by {
                assert(vstd::pervasive::cloned(a[i].1, b[i].1));
            }
            assert forall|name: Seq<char>| copy@.contains_key(name) == self@.contains_key(
                name,
            ) by {
                lemma_bindings_dom(a, name);
                lemma_bindings_dom(b, name);
                if exists|i: int| 0 <= i < a.len() && #[trigger] a[i].0 == name {
                    let i = choose|i: int| 0 <= i < a.len() && #[trigger] a[i].0 == name;
                    assert(b[i].0 == name);
                }
                if exists|i: int| 0 <= i < b.len() && #[trigger] b[i].0 == name {
                    let i = choose|i: int| 0 <= i < b.len() && #[trigger] b[i].0 == name;
                    assert(a[i].0 == name);
                }
            }
            assert forall|name: Seq<char>| self@.contains_key(name) implies copy@[name]@
                == self@[name]@ by {
                lemma_bindings_dom(a, name);
                let i = choose|i: int| 0 <= i < a.len() && #[trigger] a[i].0 == name;
                lemma_bindings_at(a, i);
                assert(b[i].0 == name);
                lemma_bindings_at(b, i);
            }
            assert(as_text(copy@) =~= as_text(self@));
        }
        copy
    }
}

impl<V: Clone> Clone for NameMap<V> {
    fn clone(&self) -> (copy: Self)
        ensures
            copy.pairs().len() == self.pairs().len(),
            forall|i: int|
                0 <= i < self.pairs().len() ==> (#[trigger] copy.pairs()[i]).0 == self.pairs()[i].0
                    && vstd::pervasive::cloned(self.pairs()[i].1, copy.pairs()[i].1),
    {
        self.duplicate()
    }
}

} // verus!
