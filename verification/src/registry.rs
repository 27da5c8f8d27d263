//! A small map from names to values that keeps its entries in the order in
//! which they came. The chain keeps its games and each game its players in
//! one.

use vstd::prelude::*;

verus! {

/// Entries under distinct names.
pub struct Registry<V> {
    keys: Vec<String>,
    values: Vec<V>,
}

impl<V> Registry<V> {
    /// The names of the entries, in order.
    pub closed spec fn names(&self) -> Seq<Seq<char>> {
        self.keys@.map_values(|k: String| k@)
    }

    /// The values of the entries, in order: `values()[i]` goes by the name
    /// `names()[i]`.
    pub closed spec fn values(&self) -> Seq<V> {
        self.values@
    }

    /// Every value has a name and no name occurs twice. This holds of every
    /// registry.
    pub open spec fn wf(&self) -> bool {
        &&& self.names().len() == self.values().len()
        &&& self.names().no_duplicates()
    }

    #[verifier::type_invariant]
    pub open spec fn inv(&self) -> bool {
        self.wf()
    }

    /// Some entry has the name `name`.
    pub open spec fn contains(&self, name: Seq<char>) -> bool {
        self.names().contains(name)
    }

    /// The place of the entry named `name`.
    pub open spec fn position(&self, name: Seq<char>) -> int {
        choose|i: int| 0 <= i < self.names().len() && self.names()[i] == name
    }

    /// An empty registry.
    pub fn new() -> (registry: Self)
        ensures
            registry.names().len() == 0,
            registry.values().len() == 0,
    {
        let registry = Registry { keys: Vec::new(), values: Vec::new() };
        assert(registry.names() =~= Seq::<Seq<char>>::empty());
        registry
    }

    /// Number of entries.
    pub(crate) fn len(&self) -> (n: usize)
        ensures
            n == self.names().len(),
            self.wf(),
    {
        proof {
            use_type_invariant(self);
        }
        self.keys.len()
    }

    /// The value at place `i`.
    pub(crate) fn value_at(&self, i: usize) -> (value: &V)
        requires
            i < self.names().len(),
        ensures
            *value == self.values()[i as int],
            self.wf(),
    {
        proof {
            use_type_invariant(self);
        }
        &self.values[i]
    }

    /// The name at place `i`.
    pub(crate) fn name_at(&self, i: usize) -> (name: &String)
        requires
            i < self.names().len(),
        ensures
            name@ == self.names()[i as int],
            self.wf(),
    {
        proof {
            use_type_invariant(self);
        }
        &self.keys[i]
    }

    /// The place of the entry named `name`, if there is one.
    pub fn index_of(&self, name: &str) -> (place: Option<usize>)
        ensures
            self.wf(),
            place is Some <==> self.contains(name@),
            place matches Some(i) ==> i < self.names().len() && self.names()[i as int] == name@
                && i == self.position(name@),
    {
        proof {
            use_type_invariant(self);
        }
        let wanted = name.to_owned();
        let mut i: usize = 0;
        while i < self.keys.len()
            invariant
                i <= self.keys@.len(),
                self.wf(),
                wanted@ == name@,
                forall|j: int| 0 <= j < i ==> self.names()[j] != name@,
            decreases self.keys@.len() - i,
        {
            if self.keys[i] == wanted {
                assert(self.names()[i as int] == name@);
                return Some(i);
            }
            i += 1;
        }
        None
    }

    /// Takes the entry at place `i` out of the registry. The entries behind
    /// it move up.
    pub(crate) fn take_at(&mut self, i: usize) -> (entry: (String, V))
        requires
            i < old(self).names().len(),
        ensures
            old(self).wf(),
            final(self).wf(),
            entry.0@ == old(self).names()[i as int],
            entry.1 == old(self).values()[i as int],
            final(self).names() == old(self).names().remove(i as int),
            final(self).values() == old(self).values().remove(i as int),
    {
        proof {
            use_type_invariant(&*self);
        }
        let mut taken = Registry::new();
        std::mem::swap(self, &mut taken);
        let Registry { keys, values } = taken;
        let mut keys = keys;
        let mut values = values;
        let name = keys.remove(i);
        let value = values.remove(i);
        proof {
            let before = old(self).names();
            let after = keys@.map_values(|k: String| k@);
            assert(after =~= before.remove(i as int));
            assert forall|a: int, b: int|
                0 <= a < after.len() && 0 <= b < after.len() && a != b implies after[a]
                != after[b] by {
                let a0 = if a < i {
                    a
                } else {
                    a + 1
                };
                let b0 = if b < i {
                    b
                } else {
                    b + 1
                };
                assert(after[a] == before[a0]);
                assert(after[b] == before[b0]);
            }
        }
        *self = Registry { keys, values };
        (name, value)
    }

    /// Puts an entry at place `i`, under a name that the registry does not
    /// hold. The entries from there on move down.
    pub(crate) fn put_at(&mut self, i: usize, name: String, value: V)
        requires
            i <= old(self).names().len(),
            !old(self).contains(name@),
        ensures
            old(self).wf(),
            final(self).wf(),
            final(self).names() == old(self).names().insert(i as int, name@),
            final(self).values() == old(self).values().insert(i as int, value),
    {
        proof {
            use_type_invariant(&*self);
        }
        let ghost added = name@;
        let mut taken = Registry::new();
        std::mem::swap(self, &mut taken);
        let Registry { keys, values } = taken;
        let mut keys = keys;
        let mut values = values;
        keys.insert(i, name);
        values.insert(i, value);
        proof {
            let before = old(self).names();
            let after = keys@.map_values(|k: String| k@);
            assert(after =~= before.insert(i as int, added));
            assert forall|a: int, b: int|
                0 <= a < after.len() && 0 <= b < after.len() && a != b implies after[a]
                != after[b] by {
                let a0 = if a < i {
                    a
                } else {
                    a - 1
                };
                let b0 = if b < i {
                    b
                } else {
                    b - 1
                };
                if a != i {
                    assert(after[a] == before[a0]);
                }
                if b != i {
                    assert(after[b] == before[b0]);
                }
            }
        }
        *self = Registry { keys, values };
    }

    /// The names of the entries, in the order in which they came.
    pub fn names_list(&self) -> (list: Vec<String>)
        ensures
            self.wf(),
            list@.len() == self.names().len(),
            forall|i: int| 0 <= i < list@.len() ==> (#[trigger] list@[i])@ == self.names()[i],
    {
        proof {
            use_type_invariant(self);
        }
        let mut list: Vec<String> = Vec::new();
        let mut i: usize = 0;
        while i < self.keys.len()
            invariant
                i <= self.keys@.len(),
                list@.len() == i,
                forall|j: int| 0 <= j < i ==> (#[trigger] list@[j])@ == self.names()[j],
            decreases self.keys@.len() - i,
        {
            list.push(self.keys[i].clone());
            i += 1;
        }
        list
    }
}

impl<V: View> View for Registry<V> {
    type V = Map<Seq<char>, V::V>;

    /// The registry as a map from names to the views of the values.
    open spec fn view(&self) -> Map<Seq<char>, V::V> {
        Map::new(
            |name: Seq<char>| self.contains(name),
            |name: Seq<char>| self.values()[self.position(name)]@,
        )
    }
}

impl<V: View> Registry<V> {
    /// In a well-formed registry, the entry at place `i` is the one that its
    /// name leads to.
    pub proof fn lemma_position(&self, i: int)
        requires
            self.wf(),
            0 <= i < self.names().len(),
        ensures
            self.contains(self.names()[i]),
            self.position(self.names()[i]) == i,
            self@.contains_key(self.names()[i]),
            self@[self.names()[i]] == self.values()[i]@,
    {
    }

    /// A name that the registry holds is the name of the entry at its place.
    pub proof fn lemma_contains(&self, name: Seq<char>)
        requires
            self.wf(),
            self.contains(name),
        ensures
            0 <= self.position(name) < self.names().len(),
            self.names()[self.position(name)] == name,
    {
    }

    /// Taking the entry at place `i` out of a registry takes its name out of
    /// the map.
    pub proof fn lemma_taken(before: Self, after: Self, i: int)
        requires
            before.wf(),
            after.wf(),
            0 <= i < before.names().len(),
            after.names() == before.names().remove(i),
            after.values() == before.values().remove(i),
        ensures
            before@.contains_key(before.names()[i]),
            before@[before.names()[i]] == before.values()[i]@,
            after@ == before@.remove(before.names()[i]),
    {
        let name = before.names()[i];
        before.lemma_position(i);
        assert forall|k: Seq<char>| after@.contains_key(k) <==> before@.remove(name).contains_key(
            k,
        ) by {
            if after.contains(k) {
                after.lemma_contains(k);
                let a = after.position(k);
                let a0 = if a < i {
                    a
                } else {
                    a + 1
                };
                assert(before.names()[a0] == k);
                before.lemma_position(a0);
            }
            if before.contains(k) && k != name {
                before.lemma_contains(k);
                let a0 = before.position(k);
                let a = if a0 < i {
                    a0
                } else {
                    a0 - 1
                };
                assert(after.names()[a] == k);
            }
        }
        assert forall|k: Seq<char>| after@.contains_key(k) implies after@[k] == before@.remove(
            name,
        )[k] by {
            after.lemma_contains(k);
            let a = after.position(k);
            let a0 = if a < i {
                a
            } else {
                a + 1
            };
            assert(before.names()[a0] == k);
            before.lemma_position(a0);
        }
        assert(after@ =~= before@.remove(name));
    }

    /// Putting an entry at place `i` of a registry puts it in the map.
    pub proof fn lemma_put(before: Self, after: Self, i: int, name: Seq<char>, value: V)
        requires
            before.wf(),
            after.wf(),
            0 <= i <= before.names().len(),
            after.names() == before.names().insert(i, name),
            after.values() == before.values().insert(i, value),
        ensures
            after@ == before@.insert(name, value@),
    {
        assert forall|k: Seq<char>| after@.contains_key(k) <==> before@.insert(
            name,
            value@,
        ).contains_key(k) by {
            if before.contains(k) {
                before.lemma_contains(k);
                let a0 = before.position(k);
                let a = if a0 < i {
                    a0
                } else {
                    a0 + 1
                };
                assert(after.names()[a] == k);
            }
            if k == name {
                assert(after.names()[i] == k);
            }
            if after.contains(k) {
                after.lemma_contains(k);
                let a = after.position(k);
                if a != i {
                    let a0 = if a < i {
                        a
                    } else {
                        a - 1
                    };
                    assert(before.names()[a0] == k);
                }
            }
        }
        assert forall|k: Seq<char>| after@.contains_key(k) implies after@[k] == before@.insert(
            name,
            value@,
        )[k] by {
            after.lemma_contains(k);
            let a = after.position(k);
            assert(after@[k] == after.values()[a]@);
            assert(after.names()[i] == name);
            if a != i {
                let a0 = if a < i {
                    a
                } else {
                    a - 1
                };
                assert(before.names()[a0] == k);
                assert(after.values()[a] == before.values()[a0]);
                before.lemma_position(a0);
            } else {
                assert(after.names()[i] == name);
                assert(after.values()[i] == value);
            }
        }
        assert(after@ =~= before@.insert(name, value@));
    }

    /// A registry holds as many entries as its map has names.
    pub proof fn lemma_len(&self)
        requires
            self.wf(),
        ensures
            self@.dom().finite(),
            self@.dom().len() == self.names().len(),
    {
        assert(self@.dom() =~= self.names().to_set());
        self.names().unique_seq_to_set();
        vstd::seq_lib::seq_to_set_is_finite(self.names());
    }

    /// Number of entries.
    pub fn count(&self) -> (n: usize)
        ensures
            n == self.names().len(),
            self@.dom().finite(),
            n == self@.dom().len(),
    {
        let n = self.len();
        proof {
            self.lemma_len();
        }
        n
    }

    /// Whether some entry has the name `name`.
    pub fn contains_key(&self, name: &str) -> (found: bool)
        ensures
            found == self@.contains_key(name@),
    {
        self.index_of(name).is_some()
    }

    /// The value named `name`, if there is one.
    pub fn get(&self, name: &str) -> (value: Option<&V>)
        ensures
            value is Some <==> self@.contains_key(name@),
            value matches Some(v) ==> v@ == self@[name@],
    {
        match self.index_of(name) {
            Some(i) => Some(self.value_at(i)),
            None => None,
        }
    }

    /// Puts a value under a name. A value that the name had before leaves
    /// the registry and is given back; its place goes to the new value. A
    /// new name comes last.
    pub fn insert(&mut self, name: String, value: V) -> (former: Option<V>)
        ensures
            final(self)@ == old(self)@.insert(name@, value@),
            former is Some <==> old(self)@.contains_key(name@),
            former matches Some(v) ==> v@ == old(self)@[name@],
    {
        let ghost before = *self;
        match self.index_of(name.as_str()) {
            Some(i) => {
                let (_name, former) = self.take_at(i);
                let ghost without = *self;
                self.put_at(i, name, value);
                proof {
                    Self::lemma_taken(before, without, i as int);
                    Self::lemma_put(without, *self, i as int, name@, value);
                    assert(before@.remove(name@).insert(name@, value@) =~= before@.insert(
                        name@,
                        value@,
                    ));
                }
                Some(former)
            },
            None => {
                let n = self.len();
                self.put_at(n, name, value);
                proof {
                    Self::lemma_put(before, *self, n as int, name@, value);
                }
                None
            },
        }
    }
}

} // verus!
