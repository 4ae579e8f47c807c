//! A collection of values under distinct names.

use vstd::prelude::*;
use crate::text;

verus! {

/// Values under names. No name occurs twice.
#[derive(Debug, PartialEq)]
pub struct Directory<V> {
    entries: Vec<(String, V)>,
}

impl<V> Directory<V> {
    /// No name occurs twice.
    #[verifier::type_invariant]
    spec fn wf(self) -> bool {
        forall|i: int, j: int|
            0 <= i < j < self.entries@.len() ==> (#[trigger] self.entries@[i]).0@ != (
            #[trigger] self.entries@[j]).0@
    }
}

impl<V: View> View for Directory<V> {
    type V = Map<Seq<char>, V::V>;

    closed spec fn view(&self) -> Map<Seq<char>, V::V> {
        Map::new(
            |k: Seq<char>| self.holds(k),
            |k: Seq<char>| self.entries@[self.position(k)].1@,
        )
    }
}

impl<V: View> Directory<V> {
    spec fn at(self, i: int, k: Seq<char>) -> bool {
        0 <= i < self.entries@.len() && self.entries@[i].0@ == k
    }

    spec fn holds(self, k: Seq<char>) -> bool {
        exists|i: int| self.at(i, k)
    }

    spec fn position(self, k: Seq<char>) -> int {
        choose|i: int| self.at(i, k)
    }

    /// The names, in the order in which the directory lists them.
    pub closed spec fn names(self) -> Seq<Seq<char>> {
        Seq::new(self.entries@.len(), |i: int| self.entries@[i].0@)
    }

    proof fn lemma_names(self)
        requires
            self.wf(),
        ensures
            self.names().no_duplicates(),
            forall|k: Seq<char>| self.names().contains(k) <==> self@.contains_key(k),
    {
        assert forall|k: Seq<char>| self.names().contains(k) <==> self@.contains_key(k) by {
            if self.names().contains(k) {
                let i = choose|i: int| 0 <= i < self.names().len() && self.names()[i] == k;
                assert(self.at(i, k));
            }
            if self@.contains_key(k) {
                let i = choose|i: int| self.at(i, k);
                assert(self.names()[i] == k);
            }
        }
    }

    proof fn lemma_at(self, i: int)
        requires
            self.wf(),
            0 <= i < self.entries@.len(),
        ensures
            self@.contains_key(self.entries@[i].0@),
            self@[self.entries@[i].0@] == self.entries@[i].1@,
    {
        let k = self.entries@[i].0@;
        assert(self.at(i, k));
        assert(self.at(self.position(k), k));
    }

    pub fn new() -> (r: Self)
        ensures
            r@ == Map::<Seq<char>, V::V>::empty(),
            r.names().len() == 0,
    {
        let r = Directory { entries: Vec::new() };
        assert(r@ =~= Map::<Seq<char>, V::V>::empty());
        r
    }

    /// The number of entries. Every name is listed once, and the listed names are those with a
    /// value.
    pub fn len(&self) -> (r: usize)
        ensures
            r == self.names().len(),
            self.names().no_duplicates(),
            forall|k: Seq<char>| self.names().contains(k) <==> self@.contains_key(k),
    {
        proof {
            use_type_invariant(self);
            self.lemma_names();
        }
        self.entries.len()
    }

    fn find(&self, name: &str) -> (r: Option<usize>)
        ensures
            match r {
                Some(i) => self.at(i as int, name@),
                None => !self.holds(name@),
            },
    {
        let mut i: usize = 0;
        while i < self.entries.len()
            invariant
                i <= self.entries@.len(),
                forall|j: int| 0 <= j < i ==> !self.at(j, name@),
            decreases self.entries.len() - i,
        {
            if text::same_text(self.entries[i].0.as_str(), name) {
                return Some(i);
            }
            i = i + 1;
        }
        None
    }

    pub fn contains_key(&self, name: &str) -> (r: bool)
        ensures
            r == self@.contains_key(name@),
    {
        self.find(name).is_some()
    }

    pub fn get(&self, name: &str) -> (r: Option<&V>)
        ensures
            match r {
                Some(v) => self@.contains_key(name@) && v@ == self@[name@],
                None => !self@.contains_key(name@),
            },
    {
        proof {
            use_type_invariant(self);
        }
        match self.find(name) {
            Some(i) => {
                proof {
                    self.lemma_at(i as int);
                }
                Some(&self.entries[i].1)
            },
            None => None,
        }
    }

    /// The name of the `i`-th entry.
    pub fn name_at(&self, i: usize) -> (r: &String)
        requires
            i < self.names().len(),
        ensures
            r@ == self.names()[i as int],
    {
        &self.entries[i].0
    }

    /// The value of the `i`-th entry.
    pub fn value_at(&self, i: usize) -> (r: &V)
        requires
            i < self.names().len(),
        ensures
            self@.contains_key(self.names()[i as int]),
            r@ == self@[self.names()[i as int]],
    {
        proof {
            use_type_invariant(self);
            self.lemma_at(i as int);
        }
        &self.entries[i].1
    }

    /// Takes the value out that stands under `name`.
    pub fn remove(&mut self, name: &str) -> (r: Option<V>)
        ensures
            final(self)@ == old(self)@.remove(name@),
            match r {
                Some(v) => old(self)@.contains_key(name@) && v@ == old(self)@[name@],
                None => !old(self)@.contains_key(name@),
            },
    {
        proof {
            use_type_invariant(&*self);
        }
        match self.find(name) {
            Some(i) => {
                proof {
                    self.lemma_at(i as int);
                }
                let mut entries: Vec<(String, V)> = Vec::new();
                std::mem::swap(&mut entries, &mut self.entries);
                let (n, v) = entries.remove(i);
                let ghost after = Directory { entries };
                proof {
                    let before = *old(self);
                    assert forall|k: Seq<char>| after.holds(k) <==> (before.holds(k) && k
                        != name@) by {
                        if after.holds(k) {
                            let j = choose|j: int| after.at(j, k);
                            if j < i {
                                assert(before.at(j, k));
                            } else {
                                assert(before.at(j + 1, k));
                            }
                        }
                        if before.holds(k) && k != name@ {
                            let j = choose|j: int| before.at(j, k);
                            if j < i {
                                assert(after.at(j, k));
                            } else {
                                assert(after.at(j - 1, k));
                            }
                        }
                    }
                    assert forall|k: Seq<char>| after.holds(k) implies after@[k] == before@[k] by {
                        let j = choose|j: int| after.at(j, k);
                        after.lemma_at(j);
                        if j < i {
                            before.lemma_at(j);
                        } else {
                            before.lemma_at(j + 1);
                        }
                    }
                    assert(after.wf());
                    assert(after@ =~= before@.remove(name@));
                }
                self.entries = entries;
                Some(v)
            },
            None => {
                assert(self@ =~= old(self)@.remove(name@));
                None
            },
        }
    }

    /// Puts `value` under `name`, in place of what stood there.
    pub fn insert(&mut self, name: String, value: V)
        ensures
            final(self)@ == old(self)@.insert(name@, value@),
    {
        let _ = self.remove(name.as_str());
        proof {
            use_type_invariant(&*self);
        }
        let ghost before = *self;
        let ghost n = name@;
        let ghost v = value@;
        assert(!before@.contains_key(n));
        let mut entries: Vec<(String, V)> = Vec::new();
        std::mem::swap(&mut entries, &mut self.entries);
        entries.push((name, value));
        let ghost after = Directory { entries };
        proof {
            let last = before.entries@.len() as int;
            assert(after.entries@[last].0@ == n);
            assert forall|j: int| 0 <= j < last implies after.entries@[j] == before.entries@[j]
                && before.entries@[j].0@ != n by {
                if before.entries@[j].0@ == n {
                    assert(before.at(j, n));
                }
            }
            assert forall|k: Seq<char>| after.holds(k) <==> (before.holds(k) || k == n) by {
                if after.holds(k) {
                    let j = choose|j: int| after.at(j, k);
                    if j < last {
                        assert(before.at(j, k));
                    }
                }
                if before.holds(k) {
                    let j = choose|j: int| before.at(j, k);
                    assert(after.at(j, k));
                }
                if k == n {
                    assert(after.at(last, k));
                }
            }
            assert(after.wf());
            assert forall|k: Seq<char>| after.holds(k) implies after@[k] == before@.insert(
                n,
                v,
            )[k] by {
                let j = choose|j: int| after.at(j, k);
                after.lemma_at(j);
                if j < last {
                    before.lemma_at(j);
                }
            }
            assert(after@ =~= before@.insert(n, v));
            assert(before@.insert(n, v) =~= old(self)@.insert(n, v));
        }
        self.entries = entries;
    }
}

} // verus!
