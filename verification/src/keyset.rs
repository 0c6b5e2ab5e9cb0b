//! A finite set of keys, held in insertion order with nothing twice.
use vstd::prelude::*;
use crate::types::Key;

verus! {

/// The set of a sequence with one more element is the old set with that element.
pub proof fn lemma_push_to_set<A>(s: Seq<A>, x: A)
    ensures
        s.push(x).to_set() == s.to_set().insert(x),
{
    let s1 = s.push(x);
    assert forall|y: A| s1.to_set().contains(y) implies s.to_set().insert(x).contains(y) by {
        let j = choose|j: int| 0 <= j < s1.len() && s1[j] == y;
        if j < s.len() {
            assert(s[j] == y);
        }
    }
    assert forall|y: A| s.to_set().insert(x).contains(y) implies s1.to_set().contains(y) by {
        if y == x {
            assert(s1[s.len() as int] == x);
        } else {
            let j = choose|j: int| 0 <= j < s.len() && s[j] == y;
            assert(s1[j] == y);
        }
    }
    assert(s1.to_set() =~= s.to_set().insert(x));
}

/// A set of keys. The keys are held in the order in which they came, each once.
pub struct KeySet<K> {
    items: Vec<K>,
}

impl<K> View for KeySet<K> {
    type V = Set<K>;

    closed spec fn view(&self) -> Set<K> {
        self.items@.to_set()
    }
}

impl<K: Key> KeySet<K> {
    /// The keys in the order in which they are held.
    pub closed spec fn elems(&self) -> Seq<K> {
        self.items@
    }

    /// Nothing is held twice.
    pub closed spec fn wf(&self) -> bool {
        self.items@.no_duplicates()
    }

    /// The set is the set of the held keys, and it is finite.
    pub proof fn lemma_view(&self)
        ensures
            self@ == self.elems().to_set(),
            self@.finite(),
            self.wf() ==> self@.len() == self.elems().len(),
    {
        if self.wf() {
            self.items@.unique_seq_to_set();
        }
        assert(self@.finite()) by {
            self.items@.lemma_cardinality_of_set();
        }
    }

    /// An empty set.
    pub fn new() -> (s: Self)
        ensures
            s.wf(),
            s@ == Set::<K>::empty(),
            s.elems() == Seq::<K>::empty(),
    {
        let s = KeySet { items: Vec::new() };
        assert(s@ =~= Set::<K>::empty());
        s
    }

    /// The number of keys.
    pub fn len(&self) -> (n: usize)
        ensures
            n == self.elems().len(),
    {
        self.items.len()
    }

    /// Whether the set is empty.
    pub fn is_empty(&self) -> (b: bool)
        ensures
            b == (self@ == Set::<K>::empty()),
            b == (self.elems().len() == 0),
    {
        proof {
            if self.items@.len() > 0 {
                assert(self@.contains(self.items@[0]));
            } else {
                assert(self@ =~= Set::<K>::empty());
            }
        }
        self.items.len() == 0
    }

    /// The position of a key, if it is held.
    fn index_of(&self, k: &K) -> (r: Option<usize>)
        ensures
            match r {
                Some(i) => i < self.elems().len() && self.elems()[i as int] == *k,
                None => !self.elems().contains(*k),
            },
    {
        let mut i: usize = 0;
        while i < self.items.len()
            invariant
                0 <= i <= self.items@.len(),
                forall|j: int| 0 <= j < i ==> self.items@[j] != *k,
            decreases self.items@.len() - i,
        {
            if self.items[i].same(k) {
                return Some(i);
            }
            i += 1;
        }
        None
    }

    /// Whether a key is held.
    pub fn contains(&self, k: &K) -> (b: bool)
        ensures
            b == self@.contains(*k),
    {
        self.index_of(k).is_some()
    }

    /// Adds a key; tells whether it was new.
    pub fn insert(&mut self, k: K) -> (added: bool)
        requires
            old(self).wf(),
        ensures
            final(self).wf(),
            final(self)@ == old(self)@.insert(k),
            added == !old(self)@.contains(k),
            added ==> final(self).elems() == old(self).elems().push(k),
            !added ==> final(self).elems() == old(self).elems(),
    {
        if self.index_of(&k).is_some() {
            assert(self@ =~= old(self)@.insert(k));
            false
        } else {
            self.items.push(k);
            proof {
                lemma_push_to_set(old(self).items@, k);
            }
            true
        }
    }

    /// Removes a key if it is held.
    pub fn remove(&mut self, k: &K)
        requires
            old(self).wf(),
        ensures
            final(self).wf(),
            final(self)@ == old(self)@.remove(*k),
    {
        match self.index_of(k) {
            None => {
                assert(self@ =~= old(self)@.remove(*k));
            },
            Some(i) => {
                let ghost before = self.items@;
                self.items.remove(i);
                assert(self.items@ == before.remove(i as int));
                assert(self@ =~= old(self)@.remove(*k)) by {
                    assert forall|x: K| self@.contains(x) implies old(self)@.remove(*k).contains(x) by {
                        let j = choose|j: int| 0 <= j < self.items@.len() && self.items@[j] == x;
                        if j < i {
                            assert(before[j] == x);
                        } else {
                            assert(before[j + 1] == x);
                            assert(j + 1 != i);
                        }
                    }
                    assert forall|x: K| old(self)@.remove(*k).contains(x) implies self@.contains(x) by {
                        let j = choose|j: int| 0 <= j < before.len() && before[j] == x;
                        assert(j != i);
                        if j < i {
                            assert(self.items@[j] == x);
                        } else {
                            assert(self.items@[j - 1] == x);
                        }
                    }
                }
                assert(self.items@.no_duplicates()) by {
                    assert forall|a: int, b: int| 0 <= a < b < self.items@.len()
                        implies self.items@[a] != self.items@[b] by {
                        let a2 = if a < i { a } else { a + 1 };
                        let b2 = if b < i { b } else { b + 1 };
                        assert(self.items@[a] == before[a2]);
                        assert(self.items@[b] == before[b2]);
                    }
                }
            },
        }
    }

    /// Moves every key of `self` into `target`; `self` is left empty.
    pub fn drain_into(&mut self, target: &mut KeySet<K>)
        requires
            old(self).wf(),
            old(target).wf(),
        ensures
            final(self).wf(),
            final(target).wf(),
            final(self)@ == Set::<K>::empty(),
            final(target)@ == old(target)@.union(old(self)@),
    {
        let mut i: usize = 0;
        while i < self.items.len()
            invariant
                0 <= i <= self.items@.len(),
                self.items@ == old(self).items@,
                target.wf(),
                target@ == old(target)@.union(self.items@.take(i as int).to_set()),
            decreases self.items@.len() - i,
        {
            let k = self.items[i];
            target.insert(k);
            assert(self.items@.take(i as int + 1) == self.items@.take(i as int).push(k));
            proof {
                lemma_push_to_set(self.items@.take(i as int), k);
            }
            assert(target@ =~= old(target)@.union(self.items@.take(i as int + 1).to_set()));
            i += 1;
        }
        assert(self.items@.take(self.items@.len() as int) == self.items@);
        self.items.clear();
        assert(self@ =~= Set::<K>::empty());
    }

    /// The held keys, each once, in the order in which they are held.
    pub fn to_vec(&self) -> (v: Vec<K>)
        ensures
            v@ == self.elems(),
    {
        let mut v: Vec<K> = Vec::new();
        let mut i: usize = 0;
        while i < self.items.len()
            invariant
                0 <= i <= self.items@.len(),
                v@ == self.items@.take(i as int),
            decreases self.items@.len() - i,
        {
            v.push(self.items[i]);
            assert(self.items@.take(i as int + 1) =~= self.items@.take(i as int).push(self.items@[i as int]));
            i += 1;
        }
        assert(self.items@.take(self.items@.len() as int) =~= self.items@);
        v
    }
}

} // verus!
