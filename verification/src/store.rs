//! A map from names to values that remembers the order in which the names
//! came. An `IndexMap` finds the place of a name; the names and the values
//! themselves stand in two vectors, place by place.

use indexmap::IndexMap;
use std::collections::hash_map::RandomState;
use vstd::prelude::*;

verus! {

/// The map of the `indexmap` crate, which keeps its entries in the order in
/// which their keys were first inserted.
#[verifier::external_type_specification]
#[verifier::external_body]
#[verifier::reject_recursive_types(K)]
#[verifier::reject_recursive_types(V)]
#[verifier::reject_recursive_types(S)]
pub struct ExIndexMap<K, V, S>(IndexMap<K, V, S>);

/// The entries of a name index, each a name and the place stored under it, in
/// the order in which the names were first inserted.
pub uninterp spec fn index_entries(m: IndexMap<String, usize, RandomState>) -> Seq<(Seq<char>, usize)>;

/// `IndexMap::new`: a map without entries.
#[verifier::external_body]
fn index_new() -> (m: IndexMap<String, usize, RandomState>)
    ensures
        index_entries(m) == Seq::<(Seq<char>, usize)>::empty(),
{
    IndexMap::new()
}

/// `IndexMap::get`: the place stored under the key equal to `name`, or `None`
/// where no entry has such a key.
#[verifier::external_body]
fn index_get(m: &IndexMap<String, usize, RandomState>, name: &str) -> (r: Option<usize>)
    ensures
        match r {
            Some(place) => exists|i: int|
                0 <= i < index_entries(*m).len() && index_entries(*m)[i] == (name@, place),
            None => forall|i: int|
                0 <= i < index_entries(*m).len() ==> index_entries(*m)[i].0 != name@,
        },
{
    m.get(name).copied()
}

/// `IndexMap::insert`: where an entry has a key equal to `name`, it keeps its
/// position, takes the new place, and the place it held is returned; otherwise
/// a new entry goes to the end and `None` is returned.
#[verifier::external_body]
fn index_insert(m: &mut IndexMap<String, usize, RandomState>, name: String, place: usize) -> (r:
    Option<usize>)
    ensures
        match r {
            Some(prev) => exists|i: int|
                0 <= i < index_entries(*old(m)).len() && index_entries(*old(m))[i] == (name@, prev)
                    && index_entries(*final(m)) == index_entries(*old(m)).update(
                    i,
                    (name@, place),
                ),
            None => {
                &&& forall|i: int|
                    0 <= i < index_entries(*old(m)).len() ==> index_entries(*old(m))[i].0
                        != name@
                &&& index_entries(*final(m)) == index_entries(*old(m)).push((name@, place))
            },
        },
{
    m.insert(name, place)
}

/// `IndexMap::clear`: no entry is left.
#[verifier::external_body]
fn index_clear(m: &mut IndexMap<String, usize, RandomState>)
    ensures
        index_entries(*final(m)) == Seq::<(Seq<char>, usize)>::empty(),
{
    m.clear()
}

/// Values under names, in the order in which the names were first used.
pub struct NamedStore<T> {
    index: IndexMap<String, usize, RandomState>,
    names: Vec<String>,
    values: Vec<T>,
}

impl<T> NamedStore<T> {
    /// The names, in the order in which they were first used.
    pub closed spec fn names(&self) -> Seq<Seq<char>> {
        self.names.deep_view()
    }

    /// The values, each at the place of its name.
    pub closed spec fn values(&self) -> Seq<T> {
        self.values@
    }

    /// Every name has one value, no name occurs twice, and the index knows
    /// the place of each.
    pub closed spec fn wf(&self) -> bool {
        &&& self.names.len() == self.values.len()
        &&& forall|i: int, j: int|
            0 <= i < j < self.names.len() ==> self.names[i]@ != self.names[j]@
        &&& index_entries(self.index) =~= Seq::new(
            self.names.len() as nat,
            |i: int| (self.names[i]@, i as usize),
        )
    }

    /// Whether `name` has a value.
    pub open spec fn has(&self, name: Seq<char>) -> bool {
        self.names().contains(name)
    }

    /// The place of `name` among the names.
    pub open spec fn place_of(&self, name: Seq<char>) -> int {
        self.names().index_of(name)
    }

    /// The value under `name`.
    pub open spec fn value_of(&self, name: Seq<char>) -> T {
        self.values()[self.place_of(name)]
    }

    /// A well-formed store has as many values as names, and no name twice.
    pub proof fn lemma_wf(&self)
        requires
            self.wf(),
        ensures
            self.names().len() == self.values().len(),
            self.names().no_duplicates(),
    {
        assert forall|i: int, j: int|
            0 <= i < self.names().len() && 0 <= j < self.names().len() && i != j implies self.names()[i]
            != self.names()[j] by {
            if i < j {
                assert(self.names[i]@ != self.names[j]@);
            } else {
                assert(self.names[j]@ != self.names[i]@);
            }
        }
    }

    /// A store without names.
    pub fn new() -> (s: Self)
        ensures
            s.wf(),
            s.names() == Seq::<Seq<char>>::empty(),
            s.values() == Seq::<T>::empty(),
    {
        let s = NamedStore { index: index_new(), names: Vec::new(), values: Vec::new() };
        assert(s.names.deep_view() =~= Seq::<Seq<char>>::empty());
        s
    }

    /// How many names there are.
    pub fn len(&self) -> (n: usize)
        requires
            self.wf(),
        ensures
            n == self.names().len(),
    {
        self.names.len()
    }

    /// The place of `name`, if it has a value.
    pub fn find(&self, name: &str) -> (r: Option<usize>)
        requires
            self.wf(),
        ensures
            match r {
                Some(place) => 0 <= place < self.names().len() && self.names()[place as int]
                    == name@ && place == self.place_of(name@),
                None => !self.has(name@),
            },
    {
        let r = index_get(&self.index, name);
        proof {
            self.lemma_wf();
            match r {
                Some(place) => {
                    let i = choose|i: int|
                        0 <= i < index_entries(self.index).len() && index_entries(self.index)[i] == (
                            name@,
                            place,
                        );
                    assert(self.names()[i] == name@);
                    assert(self.names().contains(name@));
                    let k = self.names().index_of(name@);
                    assert(self.names()[k] == name@);
                },
                None => {
                    if self.has(name@) {
                        let k = self.names().index_of(name@);
                        assert(self.names()[k] == name@);
                        assert(index_entries(self.index)[k].0 == name@);
                    }
                },
            }
        }
        r
    }

    /// The value under `name`, if it has one.
    pub fn get(&self, name: &str) -> (r: Option<&T>)
        requires
            self.wf(),
        ensures
            match r {
                Some(v) => self.has(name@) && *v == self.value_of(name@),
                None => !self.has(name@),
            },
    {
        match self.find(name) {
            Some(place) => Some(&self.values[place]),
            None => None,
        }
    }

    /// The name at `place`.
    pub fn name_at(&self, place: usize) -> (name: &String)
        requires
            self.wf(),
            place < self.names().len(),
        ensures
            name@ == self.names()[place as int],
    {
        &self.names[place]
    }

    /// The value at `place`.
    pub fn value_at(&self, place: usize) -> (v: &T)
        requires
            self.wf(),
            place < self.names().len(),
        ensures
            *v == self.values()[place as int],
    {
        &self.values[place]
    }

    /// Puts `value` under `name`. A name that is already there keeps its
    /// place and gives back the value it had; a new name goes to the end.
    pub fn insert(&mut self, name: String, value: T) -> (prev: Option<T>)
        requires
            old(self).wf(),
        ensures
            final(self).wf(),
            match prev {
                Some(p) => {
                    &&& old(self).has(name@)
                    &&& p == old(self).value_of(name@)
                    &&& final(self).names() == old(self).names()
                    &&& final(self).values() == old(self).values().update(
                        old(self).place_of(name@),
                        value,
                    )
                },
                None => {
                    &&& !old(self).has(name@)
                    &&& final(self).names() == old(self).names().push(name@)
                    &&& final(self).values() == old(self).values().push(value)
                },
            },
    {
        match self.find(name.as_str()) {
            Some(place) => {
                let mut value = value;
                std::mem::swap(&mut self.values[place], &mut value);
                Some(value)
            },
            None => {
                let place = self.names.len();
                let ghost before = index_entries(self.index);
                let ghost names = self.names.deep_view();
                let r = index_insert(&mut self.index, name.clone(), place);
                proof {
                    if r is Some {
                        let i = choose|i: int|
                            0 <= i < before.len() && before[i] == (name@, r->Some_0);
                        assert(before[i].0 == name@);
                        assert(names[i] == name@);
                        assert(names.contains(name@));
                    }
                }
                self.names.push(name);
                self.values.push(value);
                assert(self.names.deep_view() =~= names.push(name@));
                proof {
                    assert forall|i: int, j: int| 0 <= i < j < self.names.len() implies self.names[i]@
                        != self.names[j]@ by {
                        if j == place {
                            assert(names[i] == self.names[i]@);
                            assert(names.contains(names[i]));
                        } else {
                            assert(names[i] == self.names[i]@);
                            assert(names[j] == self.names[j]@);
                        }
                    }
                }
                None
            },
        }
    }

    /// Puts `value` at `place` and gives back the value that stood there.
    pub fn replace_at(&mut self, place: usize, value: T) -> (prev: T)
        requires
            old(self).wf(),
            place < old(self).names().len(),
        ensures
            final(self).wf(),
            prev == old(self).values()[place as int],
            final(self).names() == old(self).names(),
            final(self).values() == old(self).values().update(place as int, value),
    {
        let mut value = value;
        std::mem::swap(&mut self.values[place], &mut value);
        value
    }

    /// Removes every name and hands the values out, in their order.
    pub fn drain(&mut self) -> (out: Vec<T>)
        ensures
            final(self).wf(),
            final(self).names() == Seq::<Seq<char>>::empty(),
            final(self).values() == Seq::<T>::empty(),
            out@ == old(self).values(),
    {
        index_clear(&mut self.index);
        self.names.clear();
        let mut out: Vec<T> = Vec::new();
        std::mem::swap(&mut self.values, &mut out);
        assert(self.names.deep_view() =~= Seq::<Seq<char>>::empty());
        out
    }

    /// Removes every name and value.
    pub fn clear(&mut self)
        ensures
            final(self).wf(),
            final(self).names() == Seq::<Seq<char>>::empty(),
            final(self).values() == Seq::<T>::empty(),
    {
        index_clear(&mut self.index);
        self.names.clear();
        self.values.clear();
        assert(self.names.deep_view() =~= Seq::<Seq<char>>::empty());
    }

    /// The names, in the order in which they were first used.
    pub fn name_list(&self) -> (out: Vec<String>)
        ensures
            out.deep_view() == self.names(),
    {
        let mut out: Vec<String> = Vec::new();
        let mut i: usize = 0;
        assert(out.deep_view() =~= self.names().take(0));
        while i < self.names.len()
            invariant
                i <= self.names.len(),
                out.deep_view() == self.names().take(i as int),
            decreases self.names.len() - i,
        {
            let ghost before = out.deep_view();
            out.push(self.names[i].clone());
            assert(out.deep_view() =~= before.push(self.names[i as int]@));
            assert(self.names().take(i + 1) =~= self.names().take(i as int).push(self.names[i as int]@));
            i += 1;
        }
        assert(self.names().take(self.names.len() as int) =~= self.names());
        out
    }
}

} // verus!
