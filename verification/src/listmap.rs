//! A map from names to values that keeps the order in which the names arrived.

use vstd::prelude::*;
use vstd::string::*;

verus! {

/// A map keyed by text. A name is entered once; entering it again replaces its
/// value and leaves its place unchanged.
#[derive(Debug, Clone)]
pub struct ListMap<V> {
    entries: Vec<(String, V)>,
}

impl<V> View for ListMap<V> {
    type V = Map<Seq<char>, V>;

    /// The value entered last under each name.
    open spec fn view(&self) -> Map<Seq<char>, V> {
        Map::new(
            |name: Seq<char>| self.keys().contains(name),
            |name: Seq<char>| self.values()[self.keys().index_of(name)],
        )
    }
}

impl<V> ListMap<V> {
    /// The names, in the order of their first arrival.
    pub closed spec fn keys(&self) -> Seq<Seq<char>> {
        Seq::new(self.entries@.len(), |i: int| self.entries@[i].0@)
    }

    /// The values, each at the place of its name.
    pub closed spec fn values(&self) -> Seq<V> {
        Seq::new(self.entries@.len(), |i: int| self.entries@[i].1)
    }

    /// No name is entered twice.
    pub open spec fn wf(&self) -> bool {
        self.keys().no_duplicates()
    }

    /// Names and values come in pairs, and in a well-formed map a name leads
    /// to the value at its own place.
    pub proof fn lemma_entry(&self, i: int)
        requires
            self.wf(),
            0 <= i < self.keys().len(),
        ensures
            self.keys().len() == self.values().len(),
            self@.contains_key(self.keys()[i]),
            self@[self.keys()[i]] == self.values()[i],
    {
        let name = self.keys()[i];
        let j = self.keys().index_of(name);
        assert(0 <= j < self.keys().len() && self.keys()[j] == name);
    }

    /// The empty map.
    pub fn new() -> (map: Self)
        ensures
            map.wf(),
            map.keys() == Seq::<Seq<char>>::empty(),
            map.values() == Seq::<V>::empty(),
            map@ == Map::<Seq<char>, V>::empty(),
    {
        let map = ListMap { entries: Vec::new() };
        assert(map.keys() =~= Seq::<Seq<char>>::empty());
        assert(map.values() =~= Seq::<V>::empty());
        assert(map@ =~= Map::<Seq<char>, V>::empty());
        map
    }

    /// The number of names entered.
    pub fn len(&self) -> (n: usize)
        ensures
            n == self.keys().len(),
            n == self.values().len(),
    {
        self.entries.len()
    }

    /// The first place of `name`, if it is entered.
    pub fn position(&self, name: &str) -> (place: Option<usize>)
        ensures
            place is Some == self.keys().contains(name@),
            place matches Some(i) ==> {
                &&& i < self.keys().len()
                &&& self.keys()[i as int] == name@
                &&& forall|j: int| 0 <= j < i ==> self.keys()[j] != name@
            },
    {
        let wanted = String::from_str(name);
        let mut i: usize = 0;
        while i < self.entries.len()
            invariant
                i <= self.entries.len(),
                wanted@ == name@,
                forall|j: int| 0 <= j < i ==> self.keys()[j] != name@,
            decreases self.entries.len() - i,
        {
            if self.entries[i].0 == wanted {
                assert(self.keys()[i as int] == name@);
                return Some(i);
            }
            i += 1;
        }
        None
    }

    /// The name at place `i`.
    pub fn key_at(&self, i: usize) -> (name: &String)
        requires
            i < self.keys().len(),
        ensures
            name@ == self.keys()[i as int],
    {
        &self.entries[i].0
    }

    /// The value at place `i`.
    pub fn value_at(&self, i: usize) -> (value: &V)
        requires
            i < self.keys().len(),
        ensures
            *value == self.values()[i as int],
    {
        &self.entries[i].1
    }

    /// The value entered under `name`, if there is one.
    pub fn get(&self, name: &str) -> (value: Option<&V>)
        requires
            self.wf(),
        ensures
            value is Some == self@.contains_key(name@),
            value matches Some(found) ==> *found == self@[name@],
    {
        match self.position(name) {
            Some(i) => {
                proof {
                    self.lemma_entry(i as int);
                }
                Some(&self.entries[i].1)
            },
            None => None,
        }
    }

    /// Enters `value` under `name` and says whether the name is new. A new name
    /// goes to the end; a known one keeps its place and loses its old value.
    pub fn insert(&mut self, name: String, value: V) -> (fresh: bool)
        requires
            old(self).wf(),
        ensures
            final(self).wf(),
            fresh == !old(self)@.contains_key(name@),
            final(self)@ == old(self)@.insert(name@, value),
            fresh ==> final(self).keys() == old(self).keys().push(name@) && final(self).values()
                == old(self).values().push(value),
            !fresh ==> final(self).keys() == old(self).keys() && final(self).values() == old(
                self,
            ).values().update(old(self).keys().index_of(name@), value),
    {
        let ghost before = *self;
        match self.position(name.as_str()) {
            Some(i) => {
                self.entries.set(i, (name, value));
                proof {
                    before.lemma_entry(i as int);
                    assert(self.keys() =~= before.keys());
                    assert(self.values() =~= before.values().update(i as int, value));
                    assert forall|k: Seq<char>| self.keys().contains(k) implies #[trigger] self@[k]
                        == before@.insert(name@, value)[k] by {
                        let j = self.keys().index_of(k);
                        assert(0 <= j < self.keys().len() && self.keys()[j] == k);
                    }
                    assert(self@ =~= before@.insert(name@, value));
                }
                false
            },
            None => {
                self.entries.push((name, value));
                proof {
                    assert(self.keys() =~= before.keys().push(name@));
                    assert(self.values() =~= before.values().push(value));
                    assert forall|k: Seq<char>| self.keys().contains(k) implies #[trigger] self@[k]
                        == before@.insert(name@, value)[k] && before@.insert(
                        name@,
                        value,
                    ).contains_key(k) by {
                        let j = self.keys().index_of(k);
                        assert(0 <= j < self.keys().len() && self.keys()[j] == k);
                        if j < before.keys().len() {
                            assert(before.keys()[j] == k);
                            before.lemma_entry(j);
                        }
                    }
                    assert forall|k: Seq<char>|
                        before@.insert(name@, value).contains_key(k) implies self.keys().contains(
                        k,
                    ) by {
                        if k == name@ {
                            assert(self.keys()[before.keys().len() as int] == k);
                        } else {
                            let j = before.keys().index_of(k);
                            assert(0 <= j < before.keys().len() && before.keys()[j] == k);
                            assert(self.keys()[j] == k);
                        }
                    }
                    assert(self@ =~= before@.insert(name@, value));
                }
                true
            },
        }
    }
}

} // verus!
