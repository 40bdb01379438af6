//! A mapping from names to stack values, as objects and method tables hold
//! one. No name occurs twice.
//!
//! The mapping keeps its entries in the order in which their names came
//! in. Contracts see it as that sequence of entries, and as the `Map` which
//! the sequence stands for.

use vstd::prelude::*;
use crate::value::{SizedValue, addresses_among, lemma_addresses_among_push};

verus! {

/// A sequence of names with their values.
pub type Entries = Seq<(Seq<char>, SizedValue)>;

/// Whether no name occurs twice among the entries.
pub open spec fn distinct(entries: Entries) -> bool {
    forall|i: int, j: int|
        0 <= i < j < entries.len() ==> (#[trigger] entries[i]).0 != (#[trigger] entries[j]).0
}

/// Whether a name occurs among the entries.
pub open spec fn named(entries: Entries, name: Seq<char>) -> bool {
    exists|i: int| 0 <= i < entries.len() && (#[trigger] entries[i]).0 == name
}

/// The place of a name among the entries in which it occurs.
pub open spec fn place(entries: Entries, name: Seq<char>) -> int {
    choose|i: int| 0 <= i < entries.len() && (#[trigger] entries[i]).0 == name
}

/// The mapping that the entries stand for.
pub open spec fn map_of(entries: Entries) -> Map<Seq<char>, SizedValue> {
    Map::new(|name: Seq<char>| named(entries, name), |name: Seq<char>| entries[place(entries, name)].1)
}

/// The entries with `value` under `name`: in the place of the name where it
/// occurs, at the end where it does not.
pub open spec fn put(entries: Entries, name: Seq<char>, value: SizedValue) -> Entries {
    if named(entries, name) {
        entries.update(place(entries, name), (name, value))
    } else {
        entries.push((name, value))
    }
}

/// The entries without `name`.
pub open spec fn cut(entries: Entries, name: Seq<char>) -> Entries {
    if named(entries, name) {
        entries.remove(place(entries, name))
    } else {
        entries
    }
}

/// The values of the entries, in their order.
pub open spec fn values_of(entries: Entries) -> Seq<SizedValue> {
    Seq::new(entries.len(), |i: int| entries[i].1)
}

/// The heap addresses among the values of a mapping.
pub open spec fn addresses_in(fields: Map<Seq<char>, SizedValue>) -> Set<usize> {
    Set::new(
        |address: usize|
            exists|name: Seq<char>|
                fields.dom().contains(name) && #[trigger] fields[name] == SizedValue::Address(address),
    )
}

/// Among distinct entries a name has one place, and the mapping holds the
/// value at that place.
pub proof fn lemma_place(entries: Entries, i: int)
    requires
        distinct(entries),
        0 <= i < entries.len(),
    ensures
        named(entries, entries[i].0),
        place(entries, entries[i].0) == i,
        map_of(entries).dom().contains(entries[i].0),
        map_of(entries)[entries[i].0] == entries[i].1,
{
    let j = place(entries, entries[i].0);
    assert(entries[j].0 == entries[i].0);
}

/// Putting a value under a name keeps the entries distinct and stands for
/// an insertion into the mapping.
pub proof fn lemma_put(entries: Entries, name: Seq<char>, value: SizedValue)
    requires
        distinct(entries),
    ensures
        distinct(put(entries, name, value)),
        map_of(put(entries, name, value)) == map_of(entries).insert(name, value),
{
    let after = put(entries, name, value);
    let at = if named(entries, name) {
        place(entries, name)
    } else {
        entries.len() as int
    };
    assert(after[at] == (name, value));
    assert forall|i: int, j: int| 0 <= i < j < after.len() implies (#[trigger] after[i]).0 != (
    #[trigger] after[j]).0 by {
        if i < entries.len() && j < entries.len() {
            assert(entries[i].0 != entries[j].0);
        } else {
            assert(entries[i].0 != name);
        }
    }
    assert forall|k: Seq<char>| #[trigger] named(after, k) <==> (k == name || named(entries, k)) by {
        if named(after, k) && k != name {
            assert(entries[place(after, k)].0 == k);
        }
        if named(entries, k) {
            assert(after[place(entries, k)].0 == k);
        }
    }
    assert forall|k: Seq<char>| named(after, k) implies #[trigger] map_of(after)[k] == map_of(
        entries,
    ).insert(name, value)[k] by {
        let i = place(after, k);
        lemma_place(after, i);
        if k != name {
            assert(entries[i].0 == k);
            lemma_place(entries, i);
        }
    }
    assert(map_of(after) =~= map_of(entries).insert(name, value));
}

/// Cutting a name out keeps the entries distinct and stands for a removal
/// from the mapping.
pub proof fn lemma_cut(entries: Entries, name: Seq<char>)
    requires
        distinct(entries),
    ensures
        distinct(cut(entries, name)),
        map_of(cut(entries, name)) == map_of(entries).remove(name),
{
    let after = cut(entries, name);
    if named(entries, name) {
        let at = place(entries, name);
        lemma_place(entries, at);
        assert forall|i: int, j: int| 0 <= i < j < after.len() implies (#[trigger] after[i]).0 != (
        #[trigger] after[j]).0 by {
            let i0 = if i < at {
                i
            } else {
                i + 1
            };
            let j0 = if j < at {
                j
            } else {
                j + 1
            };
            assert(entries[i0].0 != entries[j0].0);
        }
        assert forall|k: Seq<char>| #[trigger] named(after, k) <==> (k != name && named(entries, k)) by {
            if named(after, k) {
                let i = place(after, k);
                let i0 = if i < at {
                    i
                } else {
                    i + 1
                };
                assert(entries[i0].0 == k);
                lemma_place(entries, i0);
            }
            if k != name && named(entries, k) {
                let i0 = place(entries, k);
                let i = if i0 < at {
                    i0
                } else {
                    i0 - 1
                };
                assert(after[i].0 == k);
            }
        }
        assert forall|k: Seq<char>| named(after, k) implies #[trigger] map_of(after)[k] == map_of(
            entries,
        )[k] by {
            let i = place(after, k);
            let i0 = if i < at {
                i
            } else {
                i + 1
            };
            lemma_place(after, i);
            assert(entries[i0].0 == k);
            lemma_place(entries, i0);
        }
    }
    assert(map_of(after) =~= map_of(entries).remove(name));
}

/// The addresses among the values of distinct entries are the addresses in
/// the mapping.
pub proof fn lemma_addresses(entries: Entries)
    requires
        distinct(entries),
    ensures
        addresses_among(values_of(entries)) == addresses_in(map_of(entries)),
{
    let values = values_of(entries);
    let map = map_of(entries);
    assert forall|a: usize| addresses_among(values).contains(a) <==> addresses_in(map).contains(a) by {
        if addresses_among(values).contains(a) {
            let i = choose|i: int| 0 <= i < values.len() && #[trigger] values[i] == SizedValue::Address(a);
            lemma_place(entries, i);
            assert(map[entries[i].0] == SizedValue::Address(a));
        }
        if addresses_in(map).contains(a) {
            let name = choose|name: Seq<char>|
                map.dom().contains(name) && #[trigger] map[name] == SizedValue::Address(a);
            assert(values[place(entries, name)] == SizedValue::Address(a));
        }
    }
    assert(addresses_among(values) =~= addresses_in(map));
}

/// A mapping from names to values.
#[derive(Debug)]
pub struct Fields {
    entries: Vec<(String, SizedValue)>,
}

/// The entries that a vector of names and values holds.
spec fn seen(entries: Seq<(String, SizedValue)>) -> Entries {
    Seq::new(entries.len(), |i: int| (entries[i].0@, entries[i].1))
}

impl View for Fields {
    type V = Map<Seq<char>, SizedValue>;

    open spec fn view(&self) -> Map<Seq<char>, SizedValue> {
        map_of(self.entries())
    }
}

impl Fields {
    /// No name occurs twice.
    #[verifier::type_invariant]
    spec fn wf(self) -> bool {
        distinct(seen(self.entries@))
    }

    /// The names with their values, in the order in which the names came in.
    pub closed spec fn entries(&self) -> Entries {
        seen(self.entries@)
    }

    /// A mapping without names.
    pub fn new() -> (fields: Fields)
        ensures
            fields.entries() == Entries::empty(),
            fields@ == Map::<Seq<char>, SizedValue>::empty(),
    {
        let fields = Fields { entries: Vec::new() };
        assert(fields.entries() =~= Entries::empty());
        assert(fields@ =~= Map::<Seq<char>, SizedValue>::empty());
        fields
    }

    /// The number of names.
    pub fn len(&self) -> (len: usize)
        ensures
            len == self.entries().len(),
    {
        self.entries.len()
    }

    /// The name and value at place `index` in the order of [`Self::entries`];
    /// nothing at or beyond the number of names.
    pub fn entry(&self, index: usize) -> (entry: Option<(&String, SizedValue)>)
        ensures
            match entry {
                Some((name, value)) => index < self.entries().len() && self.entries()[index as int] == (
                    name@,
                    value,
                ) && self@.dom().contains(name@) && self@[name@] == value,
                None => index >= self.entries().len(),
            },
    {
        if index < self.entries.len() {
            proof {
                use_type_invariant(self);
                lemma_place(self.entries(), index as int);
            }
            Some((&self.entries[index].0, self.entries[index].1))
        } else {
            None
        }
    }

    /// Where `name` stands among the entries.
    fn position(&self, name: &String) -> (found: Option<usize>)
        ensures
            match found {
                Some(i) => i < self.entries().len() && named(self.entries(), name@) && place(
                    self.entries(),
                    name@,
                ) == i,
                None => !named(self.entries(), name@),
            },
    {
        let mut i: usize = 0;
        while i < self.entries.len()
            invariant
                i <= self.entries().len(),
                forall|j: int| 0 <= j < i ==> (#[trigger] self.entries()[j]).0 != name@,
            decreases self.entries.len() - i,
        {
            if self.entries[i].0 == *name {
                proof {
                    use_type_invariant(self);
                    lemma_place(self.entries(), i as int);
                }
                return Some(i);
            }
            i = i + 1;
        }
        None
    }

    /// The value under `name`, if there is one.
    pub fn get(&self, name: &String) -> (value: Option<SizedValue>)
        ensures
            value == if self@.dom().contains(name@) {
                Some(self@[name@])
            } else {
                None
            },
    {
        match self.position(name) {
            Some(i) => Some(self.entries[i].1),
            None => None,
        }
    }

    /// Puts `value` under `name`: in the place of the name where the mapping
    /// holds it, at the end where it does not. Returns the value that was
    /// under the name.
    pub fn insert(&mut self, name: String, value: SizedValue) -> (previous: Option<SizedValue>)
        ensures
            final(self).entries() == put(old(self).entries(), name@, value),
            final(self)@ == old(self)@.insert(name@, value),
            previous == if old(self)@.dom().contains(name@) {
                Some(old(self)@[name@])
            } else {
                None
            },
    {
        proof {
            use_type_invariant(&*self);
            lemma_put(self.entries(), name@, value);
        }
        let found = self.position(&name);
        let mut entries: Vec<(String, SizedValue)> = Vec::new();
        core::mem::swap(&mut self.entries, &mut entries);
        let previous = match found {
            Some(i) => {
                let previous = entries[i].1;
                entries.set(i, (name, value));
                Some(previous)
            },
            None => {
                entries.push((name, value));
                None
            },
        };
        assert(seen(entries@) =~= put(old(self).entries(), name@, value));
        core::mem::swap(&mut self.entries, &mut entries);
        previous
    }

    /// Takes `name` out; returns the value that was under it.
    pub fn remove(&mut self, name: &String) -> (previous: Option<SizedValue>)
        ensures
            final(self).entries() == cut(old(self).entries(), name@),
            final(self)@ == old(self)@.remove(name@),
            previous == if old(self)@.dom().contains(name@) {
                Some(old(self)@[name@])
            } else {
                None
            },
    {
        proof {
            use_type_invariant(&*self);
            lemma_cut(self.entries(), name@);
        }
        match self.position(name) {
            Some(i) => {
                let mut entries: Vec<(String, SizedValue)> = Vec::new();
                core::mem::swap(&mut self.entries, &mut entries);
                let entry = entries.remove(i);
                assert(seen(entries@) =~= cut(old(self).entries(), name@));
                core::mem::swap(&mut self.entries, &mut entries);
                Some(entry.1)
            },
            None => None,
        }
    }

    /// The heap addresses among the values, each at least once.
    pub fn addresses(&self) -> (found: Vec<usize>)
        ensures
            found@.to_set() == addresses_in(self@),
    {
        let ghost values = values_of(self.entries());
        let mut found: Vec<usize> = Vec::new();
        let mut i: usize = 0;
        assert(found@.to_set() =~= addresses_among(values.take(0)));
        while i < self.entries.len()
            invariant
                i <= self.entries().len(),
                values == values_of(self.entries()),
                found@.to_set() == addresses_among(values.take(i as int)),
            decreases self.entries.len() - i,
        {
            proof {
                assert(values.take(i + 1) =~= values.take(i as int).push(values[i as int]));
                lemma_addresses_among_push(values.take(i as int), values[i as int]);
            }
            if let SizedValue::Address(address) = self.entries[i].1 {
                proof {
                    found@.lemma_push_to_set_commute(address);
                }
                found.push(address);
            }
            i = i + 1;
        }
        proof {
            use_type_invariant(self);
            assert(values.take(values.len() as int) =~= values);
            lemma_addresses(self.entries());
        }
        found
    }

    /// A copy of the mapping.
    pub fn duplicate(&self) -> (copy: Fields)
        ensures
            copy.entries() == self.entries(),
            copy@ == self@,
    {
        let mut entries: Vec<(String, SizedValue)> = Vec::new();
        let mut i: usize = 0;
        while i < self.entries.len()
            invariant
                i <= self.entries().len(),
                seen(entries@) == self.entries().take(i as int),
            decreases self.entries.len() - i,
        {
            let ghost copied = seen(entries@);
            entries.push((self.entries[i].0.clone(), self.entries[i].1));
            assert(seen(entries@) =~= copied.push(self.entries()[i as int]));
            assert(seen(entries@) =~= self.entries().take(i + 1));
            i = i + 1;
        }
        proof {
            use_type_invariant(self);
            assert(self.entries().take(self.entries().len() as int) =~= self.entries());
        }
        Fields { entries }
    }
}

} // verus!
