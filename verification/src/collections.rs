//! A map keyed by text, kept as two parallel vectors.
//!
//! Node, port and runtime identifiers are strings; the compiler and the
//! runners look values up by such identifiers. [`TextMap`] offers the map
//! operations they need, with the mathematical map `Map<Seq<char>, V>` as its
//! view: a key is the character sequence of a string, and no key occurs twice.

use vstd::prelude::*;

verus! {

/// A finite map from strings to values of type `V`.
#[derive(Debug)]
pub struct TextMap<V> {
    keys: Vec<String>,
    values: Vec<V>,
}

impl<V> View for TextMap<V> {
    type V = Map<Seq<char>, V>;

    closed spec fn view(&self) -> Map<Seq<char>, V> {
        Map::new(
            |k: Seq<char>| exists|i: int| self.holds_at(i, k),
            |k: Seq<char>| self.values@[choose|i: int| self.holds_at(i, k)],
        )
    }
}

impl<V> TextMap<V> {
    /// Each key has one value, and no two keys hold the same characters.
    #[verifier::type_invariant]
    spec fn well_formed(self) -> bool {
        &&& self.keys@.len() == self.values@.len()
        &&& forall|i: int, j: int|
            0 <= i < j < self.keys@.len() ==> self.keys@[i]@ != self.keys@[j]@
    }

    /// Slot `i` is in use and holds key `k`.
    spec fn holds_at(self, i: int, k: Seq<char>) -> bool {
        0 <= i < self.keys@.len() && self.keys@[i]@ == k
    }

    /// The entries in the order in which [`TextMap::key_at`] and
    /// [`TextMap::value_at`] hand them out.
    pub closed spec fn entries(self) -> Seq<(Seq<char>, V)> {
        Seq::new(self.keys@.len(), |i: int| (self.keys@[i]@, self.values@[i]))
    }

    /// The empty map.
    pub fn new() -> (m: Self)
        ensures
            m@ == Map::<Seq<char>, V>::empty(),
            m.entries().len() == 0,
    {
        let m = TextMap { keys: Vec::new(), values: Vec::new() };
        assert(m@ =~= Map::<Seq<char>, V>::empty());
        m
    }

    /// Moves the whole content out and leaves the map empty.
    fn take_all(&mut self) -> (taken: Self)
        ensures
            taken == *old(self),
            final(self).keys@.len() == 0,
            final(self).values@.len() == 0,
    {
        let mut taken = TextMap { keys: Vec::new(), values: Vec::new() };
        core::mem::swap(self, &mut taken);
        taken
    }

    /// The slot that holds `key`, if any.
    fn find(&self, key: &String) -> (r: Option<usize>)
        ensures
            match r {
                Some(i) => self.holds_at(i as int, key@),
                None => forall|i: int| !self.holds_at(i, key@),
            },
    {
        let mut i: usize = 0;
        while i < self.keys.len()
            invariant
                i <= self.keys@.len(),
                forall|j: int| 0 <= j < i ==> self.keys@[j]@ != key@,
            decreases self.keys@.len() - i,
        {
            if self.keys[i] == *key {
                return Some(i);
            }
            i += 1;
        }
        None
    }

    /// Whether `key` has a value.
    pub fn contains_key(&self, key: &String) -> (r: bool)
        ensures
            r == self@.contains_key(key@),
    {
        self.find(key).is_some()
    }

    /// The value stored under `key`.
    pub fn get(&self, key: &String) -> (r: Option<&V>)
        ensures
            match r {
                Some(v) => self@.contains_key(key@) && *v == self@[key@],
                None => !self@.contains_key(key@),
            },
    {
        proof {
            use_type_invariant(self);
        }
        match self.find(key) {
            Some(i) => {
                proof {
                    let j = choose|j: int| self.holds_at(j, key@);
                    assert(j == i);
                }
                Some(&self.values[i])
            },
            None => None,
        }
    }

    /// Stores `value` under `key` and returns the value that `key` had before.
    pub fn insert(&mut self, key: String, value: V) -> (r: Option<V>)
        ensures
            final(self)@ == old(self)@.insert(key@, value),
            r == (if old(self)@.contains_key(key@) {
                Some(old(self)@[key@])
            } else {
                None::<V>
            }),
    {
        proof {
            use_type_invariant(&*self);
        }
        let ghost before = *self;
        match self.find(&key) {
            Some(i) => {
                proof {
                    let j = choose|j: int| before.holds_at(j, key@);
                    assert(j == i);
                }
                let TextMap { keys, mut values } = self.take_all();
                values.push(value);
                let previous = values.swap_remove(i);
                *self = TextMap { keys, values };
                proof {
                    let after = *self;
                    assert(after.keys@ == before.keys@);
                    assert(after.values@ =~= before.values@.update(i as int, value));
                    assert forall|k: Seq<char>| #[trigger]
                        after@.contains_key(k) == before@.insert(key@, value).contains_key(
                            k,
                        ) by {
                        if k == key@ {
                            assert(after.holds_at(i as int, k));
                        } else if before@.contains_key(k) {
                            let j = choose|j: int| before.holds_at(j, k);
                            assert(after.holds_at(j, k));
                        } else if after@.contains_key(k) {
                            let j = choose|j: int| after.holds_at(j, k);
                            assert(before.holds_at(j, k));
                        }
                    }
                    assert forall|k: Seq<char>| #[trigger]
                        after@.contains_key(k) implies after@[k] == before@.insert(
                        key@,
                        value,
                    )[k] by {
                        let j = choose|j: int| after.holds_at(j, k);
                        if k == key@ {
                            assert(j == i);
                        } else {
                            assert(before.holds_at(j, k));
                            let j0 = choose|j0: int| before.holds_at(j0, k);
                            assert(j0 == j);
                        }
                    }
                    assert(after@ =~= before@.insert(key@, value));
                }
                Some(previous)
            },
            None => {
                let TextMap { mut keys, mut values } = self.take_all();
                keys.push(key);
                values.push(value);
                proof {
                    assert forall|a: int, b: int| 0 <= a < b < keys@.len() implies keys@[a]@
                        != keys@[b]@ by {
                        if b == before.keys@.len() {
                            assert(!before.holds_at(a, key@));
                        }
                    }
                }
                *self = TextMap { keys, values };
                proof {
                    let after = *self;
                    let n = before.keys@.len() as int;
                    assert forall|a: int| 0 <= a < n implies after.keys@[a]@ != key@ by {
                        assert(!before.holds_at(a, key@));
                    }
                    assert forall|k: Seq<char>| #[trigger]
                        after@.contains_key(k) == before@.insert(key@, value).contains_key(
                            k,
                        ) by {
                        if k == key@ {
                            assert(after.holds_at(n, k));
                        } else if before@.contains_key(k) {
                            let j = choose|j: int| before.holds_at(j, k);
                            assert(after.holds_at(j, k));
                        } else if after@.contains_key(k) {
                            let j = choose|j: int| after.holds_at(j, k);
                            assert(before.holds_at(j, k));
                        }
                    }
                    assert forall|k: Seq<char>| #[trigger]
                        after@.contains_key(k) implies after@[k] == before@.insert(
                        key@,
                        value,
                    )[k] by {
                        let j = choose|j: int| after.holds_at(j, k);
                        if k == key@ {
                            assert(j == n);
                        } else {
                            assert(before.holds_at(j, k));
                            let j0 = choose|j0: int| before.holds_at(j0, k);
                            assert(j0 == j);
                        }
                    }
                    assert(after@ =~= before@.insert(key@, value));
                }
                None
            },
        }
    }

    /// Takes `key` and its value out of the map.
    pub fn remove(&mut self, key: &String) -> (r: Option<V>)
        ensures
            final(self)@ == old(self)@.remove(key@),
            r == (if old(self)@.contains_key(key@) {
                Some(old(self)@[key@])
            } else {
                None::<V>
            }),
    {
        proof {
            use_type_invariant(&*self);
        }
        let ghost before = *self;
        match self.find(key) {
            Some(i) => {
                proof {
                    let j = choose|j: int| before.holds_at(j, key@);
                    assert(j == i);
                }
                let TextMap { mut keys, mut values } = self.take_all();
                let _ = keys.swap_remove(i);
                let previous = values.swap_remove(i);
                *self = TextMap { keys, values };
                proof {
                    let after = *self;
                    let last = before.keys@.len() - 1;
                    // Slot `j` of the new layout held slot `from(j)` before.
                    let from = |j: int| if j == i { last } else { j };
                    assert forall|j: int| 0 <= j < after.keys@.len() implies after.keys@[j]
                        == before.keys@[from(j)] && after.values@[j] == before.values@[from(j)] by {}
                    assert forall|k: Seq<char>| #[trigger]
                        after@.contains_key(k) == before@.remove(key@).contains_key(k) by {
                        if k != key@ && before@.contains_key(k) {
                            let j = choose|j: int| before.holds_at(j, k);
                            if j == last {
                                assert(after.holds_at(i as int, k));
                            } else {
                                assert(after.holds_at(j, k));
                            }
                        }
                        if after@.contains_key(k) {
                            let j = choose|j: int| after.holds_at(j, k);
                            assert(before.holds_at(from(j), k));
                        }
                    }
                    assert forall|k: Seq<char>| #[trigger]
                        after@.contains_key(k) implies after@[k] == before@.remove(key@)[k] by {
                        let j = choose|j: int| after.holds_at(j, k);
                        assert(before.holds_at(from(j), k));
                        let j0 = choose|j0: int| before.holds_at(j0, k);
                        assert(j0 == from(j));
                    }
                    assert(after@ =~= before@.remove(key@));
                }
                Some(previous)
            },
            None => {
                assert(self@ =~= before@.remove(key@));
                None
            },
        }
    }

    /// The number of entries.
    pub fn len(&self) -> (n: usize)
        ensures
            n == self.entries().len(),
            forall|k: Seq<char>|
                self@.contains_key(k) <==> exists|i: int|
                    0 <= i < n && (#[trigger] self.entries()[i]).0 == k,
            forall|i: int, j: int|
                0 <= i < j < n ==> self.entries()[i].0 != self.entries()[j].0,
    {
        proof {
            use_type_invariant(self);
            assert forall|k: Seq<char>| self@.contains_key(k) implies exists|i: int|
                0 <= i < self.keys@.len() && (#[trigger] self.entries()[i]).0 == k by {
                let j = choose|j: int| self.holds_at(j, k);
                assert(self.entries()[j].0 == k);
            }
            assert forall|k: Seq<char>|
                (exists|i: int|
                    0 <= i < self.keys@.len() && (#[trigger] self.entries()[i]).0
                        == k) implies self@.contains_key(k) by {
                let j = choose|i: int|
                    0 <= i < self.keys@.len() && (#[trigger] self.entries()[i]).0 == k;
                assert(self.holds_at(j, k));
            }
        }
        self.keys.len()
    }

    /// The key of entry `i`.
    pub fn key_at(&self, i: usize) -> (k: &String)
        requires
            i < self.entries().len(),
        ensures
            k@ == self.entries()[i as int].0,
            self@.contains_key(k@),
    {
        assert(self.holds_at(i as int, self.keys@[i as int]@));
        &self.keys[i]
    }

    /// The value of entry `i`.
    pub fn value_at(&self, i: usize) -> (v: &V)
        requires
            i < self.entries().len(),
        ensures
            *v == self.entries()[i as int].1,
            *v == self@[self.entries()[i as int].0],
    {
        proof {
            use_type_invariant(self);
            let k = self.keys@[i as int]@;
            assert(self.holds_at(i as int, k));
            let j = choose|j: int| self.holds_at(j, k);
            assert(j == i);
        }
        &self.values[i]
    }
}

impl<V: Clone> Clone for TextMap<V> {
    /// A map with the same keys, each with a clone of its value.
    fn clone(&self) -> (r: Self)
        ensures
            forall|k: Seq<char>| r@.contains_key(k) <==> self@.contains_key(k),
            forall|k: Seq<char>| self@.contains_key(k) ==> cloned(self@[k], #[trigger] r@[k]),
    {
        proof {
            use_type_invariant(self);
        }
        let mut keys: Vec<String> = Vec::new();
        let mut values: Vec<V> = Vec::new();
        let mut i: usize = 0;
        while i < self.keys.len()
            invariant
                i <= self.keys@.len(),
                self.keys@.len() == self.values@.len(),
                keys@.len() == i,
                values@.len() == i,
                forall|j: int| 0 <= j < i ==> (#[trigger] keys@[j])@ == self.keys@[j]@,
                forall|j: int| 0 <= j < i ==> cloned(self.values@[j], #[trigger] values@[j]),
            decreases self.keys@.len() - i,
        {
            keys.push(self.keys[i].clone());
            values.push(self.values[i].clone());
            i += 1;
        }
        let copy = TextMap { keys, values };
        proof {
            assert forall|k: Seq<char>| copy@.contains_key(k) <==> self@.contains_key(k) by {
                if copy@.contains_key(k) {
                    let j = choose|j: int| copy.holds_at(j, k);
                    assert(self.holds_at(j, k));
                }
                if self@.contains_key(k) {
                    let j = choose|j: int| self.holds_at(j, k);
                    assert(copy.holds_at(j, k));
                }
            }
            assert forall|k: Seq<char>| self@.contains_key(k) implies cloned(
                self@[k],
                #[trigger] copy@[k],
            ) by {
                let j = choose|j: int| self.holds_at(j, k);
                assert(copy.holds_at(j, k));
                let c = choose|c: int| copy.holds_at(c, k);
                assert(c == j);
            }
        }
        copy
    }
}

} // verus!
