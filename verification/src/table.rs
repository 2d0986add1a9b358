//! Small collections keyed by text.
//!
//! A [`Table`] is a map from text to values, a [`Names`] a set of texts. Both keep
//! their entries in the order they were first put in, each key once.
use crate::text::same;
use vstd::prelude::*;

verus! {

/// A map from text to values.
pub struct Table<V> {
    entries: Vec<(String, V)>,
}

impl<V> Table<V> {
    /// The entries, in the order their keys were first put in.
    pub closed spec fn listed(&self) -> Seq<(String, V)> {
        self.entries@
    }

    pub open spec fn at(&self, i: int, k: Seq<char>) -> bool {
        0 <= i < self.listed().len() && self.listed()[i].0@ == k
    }

    pub open spec fn has(&self, k: Seq<char>) -> bool {
        exists|i: int| self.at(i, k)
    }

    /// Each key stands once.
    #[verifier::type_invariant]
    pub closed spec fn distinct(&self) -> bool {
        forall|i: int, j: int|
            0 <= i < j < self.entries@.len() ==> (#[trigger] self.entries@[i]).0@ != (
            #[trigger] self.entries@[j]).0@
    }
}

impl<V> View for Table<V> {
    type V = Map<Seq<char>, V>;

    open spec fn view(&self) -> Map<Seq<char>, V> {
        Map::new(
            |k: Seq<char>| self.has(k),
            |k: Seq<char>| self.listed()[choose|i: int| self.at(i, k)].1,
        )
    }
}

impl<V> Table<V> {
    proof fn lemma_entry(&self, i: int)
        requires
            self.distinct(),
            0 <= i < self.entries@.len(),
        ensures
            self@.dom().contains(self.entries@[i].0@),
            self@[self.entries@[i].0@] == self.entries@[i].1,
    {
        let k = self.entries@[i].0@;
        assert(self.at(i, k));
        let j = choose|j: int| self.at(j, k);
        assert(self.at(j, k));
        if i < j {
            assert(self.entries@[i].0@ != self.entries@[j].0@);
        } else if j < i {
            assert(self.entries@[j].0@ != self.entries@[i].0@);
        }
    }

    pub fn new() -> (t: Self)
        ensures
            t@ == Map::<Seq<char>, V>::empty(),
    {
        let t = Table { entries: Vec::new() };
        assert forall|k: Seq<char>| !t.has(k) by {
            if t.has(k) {
                let i = choose|i: int| t.at(i, k);
                assert(t.at(i, k));
            }
        }
        assert(t@ =~= Map::<Seq<char>, V>::empty());
        t
    }

    /// How many keys there are.
    pub fn len(&self) -> (n: usize)
        ensures
            n == self.listed().len(),
    {
        self.entries.len()
    }

    fn find(&self, k: &str) -> (r: Option<usize>)
        ensures
            match r {
                Some(i) => i < self.entries@.len() && self.entries@[i as int].0@ == k@,
                None => !self@.dom().contains(k@),
            },
    {
        let mut i: usize = 0;
        while i < self.entries.len()
            invariant
                i <= self.entries.len(),
                forall|j: int| 0 <= j < i ==> (#[trigger] self.entries@[j]).0@ != k@,
            decreases self.entries.len() - i,
        {
            if same(self.entries[i].0.as_str(), k) {
                return Some(i);
            }
            i = i + 1;
        }
        assert(!self.has(k@)) by {
            if self.has(k@) {
                let j = choose|j: int| self.at(j, k@);
                assert(self.at(j, k@));
                assert(self.entries@[j].0@ != k@);
            }
        }
        None
    }

    pub fn get<'a>(&'a self, k: &str) -> (r: Option<&'a V>)
        ensures
            r == (if self@.dom().contains(k@) {
                Some(&self@[k@])
            } else {
                None
            }),
    {
        proof {
            use_type_invariant(self);
        }
        match self.find(k) {
            Some(i) => {
                proof {
                    self.lemma_entry(i as int);
                }
                Some(&self.entries[i].1)
            },
            None => None,
        }
    }

    pub fn contains_key(&self, k: &str) -> (r: bool)
        ensures
            r == self@.dom().contains(k@),
    {
        self.get(k).is_some()
    }

    pub fn insert(&mut self, k: String, v: V)
        ensures
            final(self)@ == old(self)@.insert(k@, v),
    {
        proof {
            use_type_invariant(&*self);
        }
        let found = self.find(k.as_str());
        let mut entries: Vec<(String, V)> = Vec::new();
        std::mem::swap(&mut entries, &mut self.entries);
        match found {
            Some(i) => {
                entries.set(i, (k, v));
            },
            None => {
                proof {
                    assert forall|j: int| 0 <= j < entries@.len() implies (
                    #[trigger] entries@[j]).0@ != k@ by {
                        assert(old(self).at(j, old(self).entries@[j].0@));
                    }
                }
                entries.push((k, v));
            },
        }
        self.entries = entries;
        proof {
            let a = old(self);
            let b = self;
            let m = a@.insert(k@, v);
            assert forall|x: Seq<char>| b@.dom().contains(x) <==> m.dom().contains(x) by {
                if b.has(x) {
                    let j = choose|j: int| b.at(j, x);
                    assert(b.at(j, x));
                    if x != k@ {
                        assert(a.at(j, x));
                    }
                }
                if a.has(x) {
                    let j = choose|j: int| a.at(j, x);
                    assert(a.at(j, x));
                    if x != k@ {
                        assert(b.at(j, x));
                    }
                }
                if x == k@ {
                    match found {
                        Some(i) => {
                            assert(b.at(i as int, x));
                        },
                        None => {
                            assert(b.at(a.entries@.len() as int, x));
                        },
                    }
                }
            }
            assert forall|x: Seq<char>| b@.dom().contains(x) implies b@[x] == m[x] by {
                let j = choose|j: int| b.at(j, x);
                assert(b.at(j, x));
                b.lemma_entry(j);
                if x != k@ {
                    assert(a.at(j, x));
                    a.lemma_entry(j);
                }
            }
            assert(b@ =~= m);
        }
    }

    pub fn remove(&mut self, k: &str) -> (r: Option<V>)
        ensures
            final(self)@ == old(self)@.remove(k@),
            r == (if old(self)@.dom().contains(k@) {
                Some(old(self)@[k@])
            } else {
                None
            }),
    {
        proof {
            use_type_invariant(&*self);
        }
        match self.find(k) {
            Some(i) => {
                proof {
                    self.lemma_entry(i as int);
                }
                let mut entries: Vec<(String, V)> = Vec::new();
                std::mem::swap(&mut entries, &mut self.entries);
                let (_, v) = entries.remove(i);
                self.entries = entries;
                proof {
                    let a = old(self);
                    let b = self;
                    let m = a@.remove(k@);
                    assert forall|x: Seq<char>| b@.dom().contains(x) <==> m.dom().contains(x) by {
                        if b.has(x) {
                            let j = choose|j: int| b.at(j, x);
                            assert(b.at(j, x));
                            let l = if j < i {
                                j
                            } else {
                                j + 1
                            };
                            assert(a.at(l, x));
                            if l < i {
                                assert(a.entries@[l].0@ != a.entries@[i as int].0@);
                            } else {
                                assert(a.entries@[i as int].0@ != a.entries@[l].0@);
                            }
                        }
                        if a.has(x) && x != k@ {
                            let j = choose|j: int| a.at(j, x);
                            assert(a.at(j, x));
                            let l = if j < i {
                                j
                            } else {
                                j - 1
                            };
                            assert(b.at(l, x));
                        }
                    }
                    assert forall|x: Seq<char>| b@.dom().contains(x) implies b@[x] == m[x] by {
                        let j = choose|j: int| b.at(j, x);
                        assert(b.at(j, x));
                        b.lemma_entry(j);
                        let l = if j < i {
                            j
                        } else {
                            j + 1
                        };
                        a.lemma_entry(l);
                    }
                    assert(b@ =~= m);
                }
                Some(v)
            },
            None => {
                assert(self@.remove(k@) =~= self@);
                None
            },
        }
    }
}

/// A set of texts.
pub struct Names {
    table: Table<()>,
}

impl View for Names {
    type V = Set<Seq<char>>;

    closed spec fn view(&self) -> Set<Seq<char>> {
        self.table@.dom()
    }
}

impl Names {
    pub fn new() -> (n: Self)
        ensures
            n@ == Set::<Seq<char>>::empty(),
    {
        let n = Names { table: Table::new() };
        assert(n@ =~= Set::<Seq<char>>::empty());
        n
    }

    pub fn contains(&self, k: &str) -> (r: bool)
        ensures
            r == self@.contains(k@),
    {
        self.table.contains_key(k)
    }

    /// Puts `k` in; whether it was not there before.
    pub fn insert(&mut self, k: String) -> (fresh: bool)
        ensures
            final(self)@ == old(self)@.insert(k@),
            fresh == !old(self)@.contains(k@),
    {
        let fresh = !self.table.contains_key(k.as_str());
        self.table.insert(k, ());
        assert(self@ =~= old(self)@.insert(k@));
        fresh
    }

    /// Takes `k` out; whether it was there.
    pub fn remove(&mut self, k: &str) -> (there: bool)
        ensures
            final(self)@ == old(self)@.remove(k@),
            there == old(self)@.contains(k@),
    {
        let there = self.table.contains_key(k);
        let _ = self.table.remove(k);
        assert(self@ =~= old(self)@.remove(k@));
        there
    }
}

} // verus!
