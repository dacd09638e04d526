//! A map from names to values that keeps its entries in insertion order.

use vstd::prelude::*;

verus! {

/// A map keyed by name. No name occurs twice; an entry keeps its place
/// until it is removed, and a new name is put last.
#[derive(Debug)]
pub struct NameMap<V> {
    entries: Vec<(String, V)>,
}

/// The names of `entries`, in order.
spec fn names_of<V>(entries: Seq<(String, V)>) -> Seq<Seq<char>> {
    Seq::new(entries.len(), |i: int| entries[i].0@)
}

/// Whether no two of `entries` have the same name.
spec fn distinct_names<V>(entries: Seq<(String, V)>) -> bool {
    forall|i: int, j: int|
        0 <= i < j < entries.len() ==> (#[trigger] entries[i]).0@ != (#[trigger] entries[j]).0@
}

/// The map that `entries` stand for.
spec fn map_of<V: View>(entries: Seq<(String, V)>) -> Map<Seq<char>, V::V> {
    Map::new(
        |name: Seq<char>| names_of(entries).contains(name),
        |name: Seq<char>| entries[names_of(entries).index_of(name)].1@,
    )
}

/// In a sequence of distinct names the entry at `i` is the one that the map
/// holds under its name.
proof fn lemma_map_of_index<V: View>(entries: Seq<(String, V)>, i: int)
    requires
        distinct_names(entries),
        0 <= i < entries.len(),
    ensures
        map_of(entries).dom().contains(entries[i].0@),
        map_of(entries)[entries[i].0@] == entries[i].1@,
        names_of(entries).index_of(entries[i].0@) == i,
{
    let names = names_of(entries);
    assert(names[i] == entries[i].0@);
    let k = names.index_of(entries[i].0@);
    assert(0 <= k < names.len() && names[k] == entries[i].0@);
    if k < i {
        assert(entries[k].0@ != entries[i].0@);
    } else if i < k {
        assert(entries[i].0@ != entries[k].0@);
    }
}

impl<V> NameMap<V> {
    #[verifier::type_invariant]
    closed spec fn distinct(&self) -> bool {
        distinct_names(self.entries@)
    }

    /// The names in the order of the entries.
    pub closed spec fn keys(&self) -> Seq<Seq<char>> {
        names_of(self.entries@)
    }
}

impl<V: View> View for NameMap<V> {
    type V = Map<Seq<char>, V::V>;

    closed spec fn view(&self) -> Map<Seq<char>, V::V> {
        map_of(self.entries@)
    }
}

impl<V: View> NameMap<V> {
    /// The empty map.
    pub fn new() -> (map: Self)
        ensures
            map@ == Map::<Seq<char>, V::V>::empty(),
            map.keys() == Seq::<Seq<char>>::empty(),
    {
        let map = NameMap { entries: Vec::new() };
        assert(map@ =~= Map::<Seq<char>, V::V>::empty());
        assert(map.keys() =~= Seq::<Seq<char>>::empty());
        map
    }

    /// The number of entries. The names are distinct and are the map's domain.
    pub fn len(&self) -> (n: usize)
        ensures
            n == self.keys().len(),
            self.keys().no_duplicates(),
            forall|name: Seq<char>| self@.dom().contains(name) <==> self.keys().contains(name),
    {
        proof {
            use_type_invariant(self);
        }
        self.entries.len()
    }

    /// The place of the entry called `name`, if there is one.
    pub fn position(&self, name: &str) -> (place: Option<usize>)
        ensures
            match place {
                Some(i) => i < self.keys().len() && self.keys()[i as int] == name@
                    && self@.dom().contains(name@),
                None => !self@.dom().contains(name@) && !self.keys().contains(name@),
            },
    {
        proof {
            use_type_invariant(self);
        }
        let mut i: usize = 0;
        while i < self.entries.len()
            invariant
                i <= self.entries.len(),
                forall|j: int| 0 <= j < i ==> self.entries@[j].0@ != name@,
            decreases self.entries.len() - i,
        {
            if crate::text::same_text(self.entries[i].0.as_str(), name) {
                assert(names_of(self.entries@)[i as int] == name@);
                return Some(i);
            }
            i += 1;
        }
        None
    }

    /// The name of the entry at place `i`.
    pub fn key_at(&self, i: usize) -> (name: &String)
        requires
            i < self.keys().len(),
        ensures
            name@ == self.keys()[i as int],
            self@.dom().contains(name@),
    {
        assert(names_of(self.entries@)[i as int] == self.entries@[i as int].0@);
        &self.entries[i].0
    }

    /// The value of the entry at place `i`.
    pub fn value_at(&self, i: usize) -> (value: &V)
        requires
            i < self.keys().len(),
        ensures
            self@.dom().contains(self.keys()[i as int]),
            value@ == self@[self.keys()[i as int]],
    {
        proof {
            use_type_invariant(self);
            lemma_map_of_index(self.entries@, i as int);
        }
        &self.entries[i].1
    }

    /// The value held under `name`, if there is one.
    pub fn get(&self, name: &str) -> (value: Option<&V>)
        ensures
            match value {
                Some(v) => self@.dom().contains(name@) && v@ == self@[name@],
                None => !self@.dom().contains(name@),
            },
    {
        match self.position(name) {
            Some(i) => Some(self.value_at(i)),
            None => None,
        }
    }

    /// Puts `value` under `name`: in the place of the entry of that name, or
    /// last where there is none.
    pub fn insert(&mut self, name: String, value: V)
        ensures
            final(self)@ == old(self)@.insert(name@, value@),
            final(self).keys() == if old(self).keys().contains(name@) {
                old(self).keys()
            } else {
                old(self).keys().push(name@)
            },
    {
        proof {
            use_type_invariant(&*self);
        }
        let place = self.position(name.as_str());
        let mut entries: Vec<(String, V)> = Vec::new();
        std::mem::swap(&mut entries, &mut self.entries);
        let ghost before = entries@;
        match place {
            Some(i) => {
                entries.remove(i);
                entries.insert(i, (name, value));
                assert(names_of(entries@) =~= names_of(before));
                assert(names_of(before).contains(name@));
            },
            None => {
                entries.push((name, value));
                assert(names_of(entries@) =~= names_of(before).push(name@));
            },
        }
        proof {
            let after = entries@;
            assert(distinct_names(after)) by {
                assert forall|i: int, j: int| 0 <= i < j < after.len() implies (#[trigger] after[i]).0@
                    != (#[trigger] after[j]).0@ by {
                    assert(names_of(after)[i] == after[i].0@);
                    assert(names_of(after)[j] == after[j].0@);
                    if j < before.len() {
                        assert(names_of(before)[i] == before[i].0@);
                        assert(names_of(before)[j] == before[j].0@);
                        assert(before[i].0@ != before[j].0@);
                    } else {
                        assert(names_of(before)[i] == before[i].0@);
                    }
                }
            }
            assert(map_of(after) =~= map_of(before).insert(name@, value@)) by {
                assert forall|k: Seq<char>|
                    map_of(after).dom().contains(k) <==> #[trigger] map_of(before).insert(
                        name@,
                        value@,
                    ).dom().contains(k) by {
                    if names_of(after).contains(k) {
                        let p = choose|p: int| 0 <= p < after.len() && names_of(after)[p] == k;
                        if k != name@ {
                            assert(names_of(before)[p] == k);
                        }
                    }
                    if names_of(before).contains(k) {
                        let p = choose|p: int| 0 <= p < before.len() && names_of(before)[p] == k;
                        assert(names_of(after)[p] == names_of(before)[p] || k == name@);
                    }
                    if k == name@ {
                        let p = match place {
                            Some(i) => i as int,
                            None => before.len() as int,
                        };
                        assert(names_of(after)[p] == k);
                    }
                }
                assert forall|k: Seq<char>| #[trigger]
                    map_of(after).dom().contains(k) implies map_of(after)[k] == map_of(
                    before,
                ).insert(name@, value@)[k] by {
                    let p = names_of(after).index_of(k);
                    assert(0 <= p < after.len() && names_of(after)[p] == k);
                    lemma_map_of_index(after, p);
                    if k != name@ {
                        assert(after[p] == before[p]);
                        lemma_map_of_index(before, p);
                    }
                }
            }
        }
        self.entries = entries;
    }

    /// Takes the entry called `name` out, if there is one, and returns its
    /// value. The other entries keep their order.
    pub fn remove(&mut self, name: &str) -> (value: Option<V>)
        ensures
            final(self)@ == old(self)@.remove(name@),
            final(self).keys() == old(self).keys().remove_value(name@),
            match value {
                Some(v) => old(self)@.dom().contains(name@) && v@ == old(self)@[name@],
                None => !old(self)@.dom().contains(name@),
            },
    {
        proof {
            use_type_invariant(&*self);
        }
        let place = self.position(name);
        match place {
            Some(i) => {
                let mut entries: Vec<(String, V)> = Vec::new();
                std::mem::swap(&mut entries, &mut self.entries);
                let ghost before = entries@;
                let (_, value) = entries.remove(i);
                proof {
                    let after = entries@;
                    lemma_map_of_index(before, i as int);
                    assert(after =~= before.remove(i as int));
                    assert(distinct_names(after)) by {
                        assert forall|a: int, b: int| 0 <= a < b < after.len() implies (
                        #[trigger] after[a]).0@ != (#[trigger] after[b]).0@ by {
                            let first = if a < i { a } else { a + 1 };
                            let second = if b < i { b } else { b + 1 };
                            assert(after[a] == before[first]);
                            assert(after[b] == before[second]);
                        }
                    }
                    assert(names_of(before).index_of_first(name@) == Some(i as int)) by {
                        names_of(before).index_of_first_ensures(name@);
                        let f = names_of(before).index_of_first(name@);
                        assert(f is Some);
                        let fi = f->0;
                        assert(names_of(before)[fi] == name@);
                        assert(names_of(before)[i as int] == name@);
                        if fi < i {
                            assert(before[fi].0@ != before[i as int].0@);
                        } else if i < fi {
                            assert(before[i as int].0@ != before[fi].0@);
                        }
                    }
                    assert(names_of(after) =~= names_of(before).remove(i as int));
                    assert(names_of(before).remove_value(name@) == names_of(before).remove(
                        i as int,
                    ));
                    assert(map_of(after) =~= map_of(before).remove(name@)) by {
                        assert forall|k: Seq<char>|
                            map_of(after).dom().contains(k) <==> #[trigger] map_of(before).remove(
                                name@,
                            ).dom().contains(k) by {
                            if names_of(after).contains(k) {
                                let p = choose|p: int|
                                    0 <= p < after.len() && names_of(after)[p] == k;
                                let origin = if p < i { p } else { p + 1 };
                                assert(after[p] == before[origin]);
                                assert(names_of(before)[origin] == k);
                                if k == name@ {
                                    if origin < i {
                                        assert(before[origin].0@ != before[i as int].0@);
                                    } else {
                                        assert(before[i as int].0@ != before[origin].0@);
                                    }
                                }
                            }
                            if names_of(before).contains(k) && k != name@ {
                                let origin = choose|p: int|
                                    0 <= p < before.len() && names_of(before)[p] == k;
                                let p = if origin < i { origin } else { origin - 1 };
                                assert(after[p] == before[origin]);
                                assert(names_of(after)[p] == k);
                            }
                        }
                        assert forall|k: Seq<char>| #[trigger]
                            map_of(after).dom().contains(k) implies map_of(after)[k] == map_of(
                            before,
                        ).remove(name@)[k] by {
                            let p = names_of(after).index_of(k);
                            assert(0 <= p < after.len() && names_of(after)[p] == k);
                            lemma_map_of_index(after, p);
                            let origin = if p < i { p } else { p + 1 };
                            assert(after[p] == before[origin]);
                            lemma_map_of_index(before, origin);
                        }
                    }
                }
                self.entries = entries;
                Some(value)
            },
            None => {
                proof {
                    let names = names_of(self.entries@);
                    names.index_of_first_ensures(name@);
                    assert(names.remove_value(name@) == names);
                    assert(map_of(self.entries@).remove(name@) =~= map_of(self.entries@));
                }
                None
            },
        }
    }
}

impl<V: Clone> Clone for NameMap<V> {
    /// A copy with the same names in the same order, each with the clone of
    /// its value.
    fn clone(&self) -> (copy: Self)
        ensures
            copy.keys() == self.keys(),
    {
        proof {
            use_type_invariant(self);
        }
        let mut entries: Vec<(String, V)> = Vec::new();
        let mut i: usize = 0;
        while i < self.entries.len()
            invariant
                i <= self.entries.len(),
                entries.len() == i,
                forall|j: int| 0 <= j < i ==> (#[trigger] entries[j]).0@ == self.entries[j].0@,
            decreases self.entries.len() - i,
        {
            entries.push((self.entries[i].0.clone(), self.entries[i].1.clone()));
            i += 1;
        }
        proof {
            let ours = self.entries@;
            let theirs = entries@;
            assert(names_of(theirs) =~= names_of(ours));
            assert(distinct_names(theirs)) by {
                assert forall|a: int, b: int| 0 <= a < b < theirs.len() implies (
                #[trigger] theirs[a]).0@ != (#[trigger] theirs[b]).0@ by {
                    assert(ours[a].0@ != ours[b].0@);
                }
            }
        }
        NameMap { entries }
    }
}

/// Types of which a copy can be made that stands for the same value.
pub trait Replicate: View + Sized {
    /// A copy that stands for the same value.
    fn replicate(&self) -> (copy: Self)
        ensures
            copy@ == self@,
    ;
}

impl<V: Replicate> Replicate for NameMap<V> {
    fn replicate(&self) -> (copy: Self)
        ensures
            copy@ == self@,
            copy.keys() == self.keys(),
    {
        proof {
            use_type_invariant(self);
        }
        let mut entries: Vec<(String, V)> = Vec::new();
        let mut i: usize = 0;
        while i < self.entries.len()
            invariant
                i <= self.entries.len(),
                entries.len() == i,
                forall|j: int|
                    0 <= j < i ==> (#[trigger] entries[j]).0@ == self.entries[j].0@ && entries[j].1@
                        == self.entries[j].1@,
            decreases self.entries.len() - i,
        {
            entries.push((self.entries[i].0.clone(), self.entries[i].1.replicate()));
            i += 1;
        }
        proof {
            let ours = self.entries@;
            let theirs = entries@;
            assert(names_of(theirs) =~= names_of(ours));
            assert(distinct_names(theirs)) by {
                assert forall|a: int, b: int| 0 <= a < b < theirs.len() implies (
                #[trigger] theirs[a]).0@ != (#[trigger] theirs[b]).0@ by {
                    assert(ours[a].0@ != ours[b].0@);
                }
            }
            assert(map_of(theirs) =~= map_of(ours)) by {
                assert forall|k: Seq<char>| #[trigger]
                    map_of(theirs).dom().contains(k) implies map_of(theirs)[k] == map_of(ours)[k] by {
                    let p = names_of(theirs).index_of(k);
                    assert(0 <= p < theirs.len() && names_of(theirs)[p] == k);
                    lemma_map_of_index(theirs, p);
                    lemma_map_of_index(ours, p);
                }
            }
        }
        NameMap { entries }
    }
}

} // verus!
